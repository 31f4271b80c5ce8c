use crate::style::{bold_in, Hue, Style};
use vstd::prelude::*;

verus! {

/// A writer that discards what it is given and counts it all as written.
pub struct NoopWriter;

impl NoopWriter {
    /// Accepts `buf` whole.
    pub fn write(&mut self, buf: &[u8]) -> (r: usize)
        ensures
            r == buf@.len(),
    {
        buf.len()
    }

    /// Nothing is buffered, so nothing is flushed.
    pub fn flush(&mut self) {
    }
}

/// The three kinds of value that get a style of their own.
#[derive(Clone, Copy, Debug, PartialEq, Eq, Structural)]
pub enum Role {
    ObjectKey,
    Str,
    Null,
}

/// One formatting event of a depth-first walk over a value.
#[derive(Clone, Copy, Debug, PartialEq, Eq, Structural)]
pub enum Event {
    Null,
    BeginString,
    EndString,
    StringFragment,
    CharEscape,
    BeginObjectKey,
    EndObjectKey,
    BeginObjectValue,
    EndObjectValue,
    BeginObject,
    EndObject,
    BeginArray,
    EndArray,
    BeginArrayValue,
    EndArrayValue,
    Bool,
    Integer,
    Float,
    NumberStr,
    RawFragment,
}

/// One command to the sink: apply the style of a role, hand the event to the
/// inner formatter unchanged, or reset the style.
#[derive(Clone, Copy, Debug, PartialEq, Eq, Structural)]
pub enum Op {
    Apply(Role),
    Inner,
    Reset,
}

/// The role of a string begun while the object-key flag is `is_key`.
pub open spec fn string_role(is_key: bool) -> Role {
    if is_key {
        Role::ObjectKey
    } else {
        Role::Str
    }
}

/// The commands for event `e` while the object-key flag is `is_key`.
pub open spec fn ops_for(is_key: bool, e: Event) -> Seq<Op> {
    match e {
        Event::Null => seq![Op::Apply(Role::Null), Op::Inner, Op::Reset],
        Event::BeginString => seq![Op::Apply(string_role(is_key)), Op::Inner],
        Event::EndString => seq![Op::Inner, Op::Reset],
        _ => seq![Op::Inner],
    }
}

/// The object-key flag after event `e`.
pub open spec fn key_after(is_key: bool, e: Event) -> bool {
    match e {
        Event::BeginObjectKey => true,
        Event::EndObjectKey => false,
        _ => is_key,
    }
}

/// The object-key flag after `events`, starting from `is_key`.
pub open spec fn key_state(is_key: bool, events: Seq<Event>) -> bool
    decreases events.len(),
{
    if events.len() == 0 {
        is_key
    } else {
        key_after(key_state(is_key, events.drop_last()), events.last())
    }
}

/// The commands for `events`, in order, starting from the flag `is_key`.
pub open spec fn trace(is_key: bool, events: Seq<Event>) -> Seq<Op>
    decreases events.len(),
{
    if events.len() == 0 {
        Seq::empty()
    } else {
        let pre = events.drop_last();
        trace(is_key, pre) + ops_for(key_state(is_key, pre), events.last())
    }
}

/// Whether `e` may only come inside a string.
pub open spec fn in_string_event(e: Event) -> bool {
    e == Event::StringFragment || e == Event::CharEscape || e == Event::EndString
}

/// Whether a string is open after `events`.
pub open spec fn string_open(events: Seq<Event>) -> bool
    decreases events.len(),
{
    if events.len() == 0 {
        false
    } else if events.last() == Event::BeginString {
        true
    } else if events.last() == Event::EndString {
        false
    } else {
        string_open(events.drop_last())
    }
}

/// Strings are well nested: inside one only fragments, escapes and its end
/// come; outside, none of these.
pub open spec fn well_formed(events: Seq<Event>) -> bool
    decreases events.len(),
{
    if events.len() == 0 {
        true
    } else {
        let pre = events.drop_last();
        well_formed(pre) && (string_open(pre) <==> in_string_event(events.last()))
    }
}

/// The style commands among `ops`, in order.
pub open spec fn style_ops(ops: Seq<Op>) -> Seq<Op>
    decreases ops.len(),
{
    if ops.len() == 0 {
        Seq::empty()
    } else if ops.last() == Op::Inner {
        style_ops(ops.drop_last())
    } else {
        style_ops(ops.drop_last()).push(ops.last())
    }
}

/// Sets and resets take turns, beginning with a set.
pub open spec fn alternating(s: Seq<Op>) -> bool {
    forall|i: int|
        0 <= i < s.len() ==> (#[trigger] s[i] == Op::Reset <==> i % 2 == 1) && s[i] != Op::Inner
}

/// Decides, event by event, which styles a sink gets around the output of an
/// inner formatter: object keys, strings and nulls are styled, the rest is not.
pub struct ColorizedFormatter {
    obj_key_color: Style,
    string_color: Style,
    null_color: Style,
    is_object_key: bool,
}

impl ColorizedFormatter {
    /// Whether the events are inside an object key.
    pub closed spec fn key_flag(&self) -> bool {
        self.is_object_key
    }

    /// The style that the sink gets for `role`.
    pub closed spec fn spec_style(&self, role: Role) -> Style {
        match role {
            Role::ObjectKey => self.obj_key_color,
            Role::Str => self.string_color,
            Role::Null => self.null_color,
        }
    }

    /// Whether the events are inside an object key.
    pub fn is_object_key(&self) -> (r: bool)
        ensures
            r == self.key_flag(),
    {
        self.is_object_key
    }

    /// The style that the sink gets for `role`.
    pub fn style(&self, role: Role) -> (r: Style)
        ensures
            r == self.spec_style(role),
    {
        match role {
            Role::ObjectKey => self.obj_key_color,
            Role::Str => self.string_color,
            Role::Null => self.null_color,
        }
    }

    /// The commands for one event, in order; the object-key flag follows the
    /// key boundaries.
    pub fn handle(&mut self, e: Event) -> (r: Vec<Op>)
        ensures
            r@ == ops_for(old(self).key_flag(), e),
            final(self).key_flag() == key_after(old(self).key_flag(), e),
            forall|role: Role| #[trigger] final(self).spec_style(role) == old(self).spec_style(role),
    {
        match e {
            Event::Null => vec![Op::Apply(Role::Null), Op::Inner, Op::Reset],
            Event::BeginString => {
                let role = if self.is_object_key {
                    Role::ObjectKey
                } else {
                    Role::Str
                };
                vec![Op::Apply(role), Op::Inner]
            },
            Event::EndString => vec![Op::Inner, Op::Reset],
            Event::BeginObjectKey => {
                self.is_object_key = true;
                vec![Op::Inner]
            },
            Event::EndObjectKey => {
                self.is_object_key = false;
                vec![Op::Inner]
            },
            _ => vec![Op::Inner],
        }
    }

    /// The commands for a whole run of events, in order.
    pub fn handle_all(&mut self, events: &Vec<Event>) -> (r: Vec<Op>)
        ensures
            r@ == trace(old(self).key_flag(), events@),
            final(self).key_flag() == key_state(old(self).key_flag(), events@),
            forall|role: Role| #[trigger] final(self).spec_style(role) == old(self).spec_style(role),
    {
        let ghost k0 = self.key_flag();
        let mut out: Vec<Op> = Vec::new();
        let mut i: usize = 0;
        while i < events.len()
            invariant
                i <= events@.len(),
                out@ == trace(k0, events@.subrange(0, i as int)),
                self.key_flag() == key_state(k0, events@.subrange(0, i as int)),
                forall|role: Role| #[trigger] self.spec_style(role) == old(self).spec_style(role),
            decreases events@.len() - i,
        {
            let ghost pre = events@.subrange(0, i as int);
            let mut ops = self.handle(events[i]);
            out.append(&mut ops);
            i = i + 1;
            let ghost cur = events@.subrange(0, i as int);
            assert(cur.drop_last() =~= pre);
        }
        assert(events@.subrange(0, events@.len() as int) =~= events@);
        out
    }
}

/// The style of `role` when none is chosen: bold blue keys, bold green
/// strings, bold black nulls.
pub open spec fn default_style(role: Role) -> Style {
    match role {
        Role::ObjectKey => bold_in(Hue::Blue),
        Role::Str => bold_in(Hue::Green),
        Role::Null => bold_in(Hue::Black),
    }
}

/// serde_json's compact JSON formatter, carried through as an opaque value.
#[verifier::external_type_specification]
#[verifier::external_body]
pub struct ExCompactFormatter(serde_json::ser::CompactFormatter);

/// serde_json's indenting JSON formatter, carried through as an opaque value.
#[verifier::external_type_specification]
#[verifier::external_body]
pub struct ExPrettyFormatter<'a>(serde_json::ser::PrettyFormatter<'a>);

/// Relies on serde_json's `CompactFormatter`, a unit struct: JSON without
/// added whitespace.
#[verifier::external_body]
fn compact_formatter() -> serde_json::ser::CompactFormatter {
    serde_json::ser::CompactFormatter
}

/// Relies on `serde_json::ser::PrettyFormatter::new`: JSON indented by two
/// spaces per level.
#[verifier::external_body]
fn pretty_formatter<'a>() -> serde_json::ser::PrettyFormatter<'a> {
    serde_json::ser::PrettyFormatter::new()
}

/// Collects the styles and the inner formatter of a colorized formatter.
pub struct ColorizedSerializerBuilder<F> {
    obj_key_color: Style,
    string_color: Style,
    null_color: Style,
    formatter: F,
}

impl ColorizedSerializerBuilder<serde_json::ser::CompactFormatter> {
    /// Compact output with the default styles.
    pub fn new() -> (r: Self)
        ensures
            forall|role: Role| #[trigger] r.spec_color(role) == default_style(role),
    {
        Self::with_formatter(compact_formatter())
    }
}

impl<'a> ColorizedSerializerBuilder<serde_json::ser::PrettyFormatter<'a>> {
    /// Indented output with the default styles.
    pub fn pretty() -> (r: Self)
        ensures
            forall|role: Role| #[trigger] r.spec_color(role) == default_style(role),
    {
        Self::with_formatter(pretty_formatter())
    }
}

impl<F> ColorizedSerializerBuilder<F> {
    /// The style chosen for `role`.
    pub closed spec fn spec_color(&self, role: Role) -> Style {
        match role {
            Role::ObjectKey => self.obj_key_color,
            Role::Str => self.string_color,
            Role::Null => self.null_color,
        }
    }

    /// The inner formatter.
    pub closed spec fn spec_formatter(&self) -> F {
        self.formatter
    }

    /// Output by `formatter`, with the default styles.
    pub fn with_formatter(formatter: F) -> (r: Self)
        ensures
            forall|role: Role| #[trigger] r.spec_color(role) == default_style(role),
            r.spec_formatter() == formatter,
    {
        let mut obj_key_color = Style::new();
        obj_key_color.set_fg(Some(Hue::Blue));
        obj_key_color.set_bold(true);
        let mut string_color = Style::new();
        string_color.set_fg(Some(Hue::Green));
        string_color.set_bold(true);
        let mut null_color = Style::new();
        null_color.set_fg(Some(Hue::Black));
        null_color.set_bold(true);
        Self { obj_key_color, string_color, null_color, formatter }
    }

    /// Object keys get `obj_key_color`; the rest stays.
    pub fn with_object_key_color(self, obj_key_color: Style) -> (r: Self)
        ensures
            r.spec_color(Role::ObjectKey) == obj_key_color,
            r.spec_color(Role::Str) == self.spec_color(Role::Str),
            r.spec_color(Role::Null) == self.spec_color(Role::Null),
            r.spec_formatter() == self.spec_formatter(),
    {
        Self { obj_key_color, ..self }
    }

    /// Strings get `string_color`; the rest stays.
    pub fn with_string_color(self, string_color: Style) -> (r: Self)
        ensures
            r.spec_color(Role::ObjectKey) == self.spec_color(Role::ObjectKey),
            r.spec_color(Role::Str) == string_color,
            r.spec_color(Role::Null) == self.spec_color(Role::Null),
            r.spec_formatter() == self.spec_formatter(),
    {
        Self { string_color, ..self }
    }

    /// Nulls get `null_color`; the rest stays.
    pub fn with_null_color(self, null_color: Style) -> (r: Self)
        ensures
            r.spec_color(Role::ObjectKey) == self.spec_color(Role::ObjectKey),
            r.spec_color(Role::Str) == self.spec_color(Role::Str),
            r.spec_color(Role::Null) == null_color,
            r.spec_formatter() == self.spec_formatter(),
    {
        Self { null_color, ..self }
    }

    /// A formatter with these styles, outside any object key, and the inner
    /// formatter that writes the bytes.
    pub fn build(self) -> (r: (ColorizedFormatter, F))
        ensures
            forall|role: Role| #[trigger] r.0.spec_style(role) == self.spec_color(role),
            !r.0.key_flag(),
            r.1 == self.spec_formatter(),
    {
        let formatter = ColorizedFormatter {
            obj_key_color: self.obj_key_color,
            string_color: self.string_color,
            null_color: self.null_color,
            is_object_key: false,
        };
        (formatter, self.formatter)
    }
}

/// The style commands of a concatenation are those of its parts, in order.
pub proof fn lemma_style_ops_append(a: Seq<Op>, b: Seq<Op>)
    ensures
        style_ops(a + b) == style_ops(a) + style_ops(b),
    decreases b.len(),
{
    if b.len() == 0 {
        assert(a + b =~= a);
        assert(style_ops(a) + style_ops(b) =~= style_ops(a));
    } else {
        lemma_style_ops_append(a, b.drop_last());
        assert((a + b).drop_last() =~= a + b.drop_last());
        if b.last() != Op::Inner {
            assert(style_ops(a) + style_ops(b.drop_last()).push(b.last()) =~= (style_ops(a)
                + style_ops(b.drop_last())).push(b.last()));
        }
    }
}

/// The style commands of one event.
pub proof fn lemma_event_styles(is_key: bool, e: Event)
    ensures
        style_ops(ops_for(is_key, e)) == (match e {
            Event::Null => seq![Op::Apply(Role::Null), Op::Reset],
            Event::BeginString => seq![Op::Apply(string_role(is_key))],
            Event::EndString => seq![Op::Reset],
            _ => Seq::<Op>::empty(),
        }),
{
    let ops = ops_for(is_key, e);
    reveal_with_fuel(style_ops, 4);
    assert(seq![Op::Inner].drop_last() =~= Seq::<Op>::empty());
    assert(seq![Op::Inner, Op::Reset].drop_last() =~= seq![Op::Inner]);
    assert(seq![Op::Apply(string_role(is_key)), Op::Inner].drop_last() =~= seq![
        Op::Apply(string_role(is_key)),
    ]);
    assert(seq![Op::Apply(string_role(is_key))].drop_last() =~= Seq::<Op>::empty());
    assert(seq![Op::Apply(Role::Null), Op::Inner, Op::Reset].drop_last() =~= seq![
        Op::Apply(Role::Null),
        Op::Inner,
    ]);
    assert(seq![Op::Apply(Role::Null), Op::Inner].drop_last() =~= seq![Op::Apply(Role::Null)]);
    assert(seq![Op::Apply(Role::Null)].drop_last() =~= Seq::<Op>::empty());
    assert(Seq::<Op>::empty().push(Op::Apply(Role::Null)).push(Op::Reset) =~= seq![
        Op::Apply(Role::Null),
        Op::Reset,
    ]);
    assert(Seq::<Op>::empty().push(Op::Apply(string_role(is_key))) =~= seq![
        Op::Apply(string_role(is_key)),
    ]);
    assert(Seq::<Op>::empty().push(Op::Reset) =~= seq![Op::Reset]);
}

/// Over any run of events with well-nested strings, style sets and resets
/// alternate, starting with a set, so no two sets and no two resets are
/// adjacent; when no string is left open there are as many resets as sets.
pub proof fn lemma_styles_paired(is_key: bool, events: Seq<Event>)
    requires
        well_formed(events),
    ensures
        alternating(style_ops(trace(is_key, events))),
        style_ops(trace(is_key, events)).len() % 2 == (if string_open(events) {
            1int
        } else {
            0int
        }),
    decreases events.len(),
{
    if events.len() > 0 {
        let pre = events.drop_last();
        let e = events.last();
        let k = key_state(is_key, pre);
        lemma_styles_paired(is_key, pre);
        lemma_style_ops_append(trace(is_key, pre), ops_for(k, e));
        lemma_event_styles(k, e);
        let s0 = style_ops(trace(is_key, pre));
        let s1 = style_ops(trace(is_key, events));
        assert(s1 == s0 + style_ops(ops_for(k, e)));
        assert forall|i: int| 0 <= i < s1.len() implies (#[trigger] s1[i] == Op::Reset <==> i % 2
            == 1) && s1[i] != Op::Inner by {
            if i >= s0.len() {
                assert(s1[i] == style_ops(ops_for(k, e))[i - s0.len()]);
            } else {
                assert(s1[i] == s0[i]);
            }
        }
    }
}

/// Whether `events` leave an object key open: some key began and no key
/// ended after it, or none ended at all and the run began inside a key.
pub open spec fn in_key_context(is_key: bool, events: Seq<Event>) -> bool {
    (exists|j: int|
        0 <= j < events.len() && #[trigger] events[j] == Event::BeginObjectKey && forall|m: int|
            j < m < events.len() ==> #[trigger] events[m] != Event::EndObjectKey) || (is_key
        && forall|m: int| 0 <= m < events.len() ==> #[trigger] events[m] != Event::EndObjectKey)
}

/// The object-key flag after a run of events is exactly whether that run
/// leaves an object key open.
pub proof fn lemma_key_state_is_context(is_key: bool, events: Seq<Event>)
    ensures
        key_state(is_key, events) == in_key_context(is_key, events),
    decreases events.len(),
{
    if events.len() > 0 {
        let pre = events.drop_last();
        let n = events.len() - 1;
        let e = events.last();
        lemma_key_state_is_context(is_key, pre);
        assert forall|m: int| 0 <= m < n implies #[trigger] events[m] == pre[m] by {}
        if e == Event::BeginObjectKey {
            assert(events[n] == Event::BeginObjectKey);
        } else if e == Event::EndObjectKey {
            assert(events[n] == Event::EndObjectKey);
            if in_key_context(is_key, events) {
                if exists|j: int|
                    0 <= j < events.len() && #[trigger] events[j] == Event::BeginObjectKey
                        && forall|m: int| j < m < events.len() ==> #[trigger] events[m]
                        != Event::EndObjectKey {
                    let j = choose|j: int|
                        0 <= j < events.len() && #[trigger] events[j] == Event::BeginObjectKey
                            && forall|m: int| j < m < events.len() ==> #[trigger] events[m]
                            != Event::EndObjectKey;
                    assert(j < n);
                    assert(events[n] != Event::EndObjectKey);
                } else {
                    assert(events[n] != Event::EndObjectKey);
                }
            }
        } else {
            if in_key_context(is_key, pre) {
                if exists|j: int|
                    0 <= j < pre.len() && #[trigger] pre[j] == Event::BeginObjectKey && forall|
                        m: int,
                    | j < m < pre.len() ==> #[trigger] pre[m] != Event::EndObjectKey {
                    let j = choose|j: int|
                        0 <= j < pre.len() && #[trigger] pre[j] == Event::BeginObjectKey
                            && forall|m: int| j < m < pre.len() ==> #[trigger] pre[m]
                            != Event::EndObjectKey;
                    assert(events[j] == Event::BeginObjectKey);
                    assert forall|m: int| j < m < events.len() implies #[trigger] events[m]
                        != Event::EndObjectKey by {
                        if m < n {
                            assert(pre[m] != Event::EndObjectKey);
                        }
                    }
                } else {
                    assert forall|m: int| 0 <= m < events.len() implies #[trigger] events[m]
                        != Event::EndObjectKey by {
                        if m < n {
                            assert(pre[m] != Event::EndObjectKey);
                        }
                    }
                }
            }
            if in_key_context(is_key, events) {
                if exists|j: int|
                    0 <= j < events.len() && #[trigger] events[j] == Event::BeginObjectKey
                        && forall|m: int| j < m < events.len() ==> #[trigger] events[m]
                        != Event::EndObjectKey {
                    let j = choose|j: int|
                        0 <= j < events.len() && #[trigger] events[j] == Event::BeginObjectKey
                            && forall|m: int| j < m < events.len() ==> #[trigger] events[m]
                            != Event::EndObjectKey;
                    assert(j < n);
                    assert(pre[j] == Event::BeginObjectKey);
                    assert forall|m: int| j < m < pre.len() implies #[trigger] pre[m]
                        != Event::EndObjectKey by {
                        assert(events[m] != Event::EndObjectKey);
                    }
                } else {
                    assert forall|m: int| 0 <= m < pre.len() implies #[trigger] pre[m]
                        != Event::EndObjectKey by {
                        assert(events[m] != Event::EndObjectKey);
                    }
                }
            }
        }
    }
}

/// A string begun while an object key is open gets the key style, any other
/// string the string style; the flag moves only at key boundaries, and an
/// event inside an open string neither moves it nor sets a style.
pub proof fn lemma_string_roles(is_key: bool, events: Seq<Event>, e: Event)
    ensures
        trace(is_key, events.push(Event::BeginString)) == trace(is_key, events) + seq![
            Op::Apply(string_role(in_key_context(is_key, events))),
            Op::Inner,
        ],
        key_state(is_key, events.push(Event::BeginObjectKey)),
        !key_state(is_key, events.push(Event::EndObjectKey)),
        e != Event::BeginObjectKey && e != Event::EndObjectKey ==> key_state(
            is_key,
            events.push(e),
        ) == key_state(is_key, events),
        well_formed(events.push(e)) && string_open(events) ==> key_state(is_key, events.push(e))
            == key_state(is_key, events) && forall|i: int|
            0 <= i < ops_for(key_state(is_key, events), e).len() ==> !(#[trigger] ops_for(
                key_state(is_key, events),
                e,
            )[i] is Apply),
{
    lemma_key_state_is_context(is_key, events);
    assert(events.push(Event::BeginString).drop_last() =~= events);
    assert(events.push(Event::BeginObjectKey).drop_last() =~= events);
    assert(events.push(Event::EndObjectKey).drop_last() =~= events);
    assert(events.push(e).drop_last() =~= events);
}

/// A null is set in the null style, handed to the inner formatter alone, and
/// reset.
pub proof fn lemma_null_style(is_key: bool, events: Seq<Event>)
    ensures
        trace(is_key, events.push(Event::Null)) == trace(is_key, events) + seq![
            Op::Apply(Role::Null),
            Op::Inner,
            Op::Reset,
        ],
{
    assert(events.push(Event::Null).drop_last() =~= events);
}

/// Numbers, booleans, raw fragments and structure are handed on with no style
/// command.
pub proof fn lemma_unstyled_events(is_key: bool, events: Seq<Event>, e: Event)
    requires
        e != Event::Null,
        e != Event::BeginString,
        e != Event::EndString,
    ensures
        trace(is_key, events.push(e)) == trace(is_key, events) + seq![Op::Inner],
{
    assert(events.push(e).drop_last() =~= events);
}

/// Two formatters built from builders with the same styles give the same
/// commands, with the same styles, for the same events.
pub proof fn lemma_same_output<F, G>(
    x: ColorizedSerializerBuilder<F>,
    y: ColorizedSerializerBuilder<G>,
    a: ColorizedFormatter,
    b: ColorizedFormatter,
    events: Seq<Event>,
)
    requires
        forall|role: Role| #[trigger] x.spec_color(role) == y.spec_color(role),
        forall|role: Role| #[trigger] a.spec_style(role) == x.spec_color(role),
        forall|role: Role| #[trigger] b.spec_style(role) == y.spec_color(role),
        !a.key_flag(),
        !b.key_flag(),
    ensures
        trace(a.key_flag(), events) == trace(b.key_flag(), events),
        forall|role: Role| #[trigger] a.spec_style(role) == b.spec_style(role),
{
    assert forall|role: Role| #[trigger] a.spec_style(role) == b.spec_style(role) by {
        assert(x.spec_color(role) == y.spec_color(role));
    }
}

} // verus!
