use vstd::prelude::*;

verus! {

/// A run of `n` space bytes.
pub open spec fn spaces(n: nat) -> Seq<u8> {
    Seq::new(n, |i: int| 32u8)
}

/// Indentation for pretty printing: `level` steps of `size` spaces each.
#[derive(Clone, Copy)]
pub struct Indent {
    level: u32,
    size: u32,
}

impl Indent {
    /// Nesting depth.
    pub closed spec fn level(&self) -> nat {
        self.level as nat
    }

    /// Spaces per level.
    pub closed spec fn size(&self) -> nat {
        self.size as nat
    }

    /// The value made by `default`.
    pub closed spec fn spec_default() -> Indent {
        Indent { level: 0, size: 2 }
    }

    /// The value made by `with_size`.
    pub closed spec fn spec_with_size(self, size: u32) -> Indent {
        Indent { size, ..self }
    }

    /// The value made by `inc`.
    pub closed spec fn spec_inc(self) -> Indent {
        Indent { level: (self.level + 1) as u32, size: self.size }
    }

    /// Level zero, two spaces per level.
    pub fn default() -> (r: Indent)
        ensures
            r == Indent::spec_default(),
            r.level() == 0,
            r.size() == 2,
    {
        Indent { level: 0, size: 2 }
    }

    /// The same level, with `size` spaces per level.
    pub fn with_size(self, size: u32) -> (r: Indent)
        ensures
            r == self.spec_with_size(size),
            r.level() == self.level(),
            r.size() == size,
    {
        Indent { size, ..self }
    }

    /// One level deeper, with the same size.
    pub fn inc(self) -> (r: Indent)
        requires
            self.level() < u32::MAX,
        ensures
            r == self.spec_inc(),
            r.level() == self.level() + 1,
            r.size() == self.size(),
    {
        Indent { level: self.level + 1, size: self.size }
    }

    /// The whitespace of this indentation: `level * size` spaces.
    pub fn render(&self) -> (r: Vec<u8>)
        requires
            self.level() * self.size() <= u32::MAX,
        ensures
            r@ == rendered(*self),
    {
        let n: u32 = self.level * self.size;
        let mut out: Vec<u8> = Vec::new();
        let mut i: u32 = 0;
        while i < n
            invariant
                i <= n,
                n == self.level() * self.size(),
                out@ == spaces(i as nat),
            decreases n - i,
        {
            out.push(32u8);
            i = i + 1;
            assert(out@ =~= spaces(i as nat));
        }
        out
    }

    /// The facts about `spec_inc` and `spec_with_size` that callers reason with.
    pub proof fn lemma_spec_steps(self, size: u32)
        ensures
            self.level() < u32::MAX ==> self.spec_inc().level() == self.level() + 1,
            self.spec_inc().size() == self.size(),
            self.spec_with_size(size).level() == self.level(),
            self.spec_with_size(size).size() == size,
            Indent::spec_default().level() == 0,
            Indent::spec_default().size() == 2,
    {
    }
}

/// The bytes that `render` produces for `i`.
pub open spec fn rendered(i: Indent) -> Seq<u8> {
    spaces(i.level() * i.size())
}

/// `i` after `n` calls of `inc`.
pub open spec fn deeper(i: Indent, n: nat) -> Indent
    decreases n,
{
    if n == 0 {
        i
    } else {
        deeper(i, (n - 1) as nat).spec_inc()
    }
}

/// Each call of `inc` adds one level and keeps the size.
pub proof fn lemma_deeper(i: Indent, n: nat)
    requires
        i.level() + n <= u32::MAX,
    ensures
        deeper(i, n).level() == i.level() + n,
        deeper(i, n).size() == i.size(),
    decreases n,
{
    if n > 0 {
        lemma_deeper(i, (n - 1) as nat);
        deeper(i, (n - 1) as nat).lemma_spec_steps(0);
    }
}

/// After `n` calls of `inc` from the default, `render` gives `n * 2` spaces;
/// after `with_size(size)` and one `inc`, it gives `size` spaces, not two.
pub proof fn lemma_render_after_increments(n: nat, size: u32)
    requires
        n <= u32::MAX,
    ensures
        rendered(deeper(Indent::spec_default(), n)) == spaces(n * 2),
        rendered(deeper(Indent::spec_default().spec_with_size(size), 1)) == spaces(size as nat),
{
    let d = Indent::spec_default();
    d.lemma_spec_steps(size);
    lemma_deeper(d, n);
    lemma_deeper(d.spec_with_size(size), 1);
    let e = deeper(d.spec_with_size(size), 1);
    assert(e.level() == 1);
    assert(e.size() == size as nat);
    assert(e.level() * e.size() == size as nat);
}

} // verus!
