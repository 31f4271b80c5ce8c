use vstd::prelude::*;

verus! {

/// When to color the output.
#[derive(Clone, Copy, Debug, PartialEq, Eq, Structural)]
pub enum ColorOpt {
    Auto,
    Always,
    Never,
}

/// What the terminal sink is told to do about color.
#[derive(Clone, Copy, Debug, PartialEq, Eq, Structural)]
pub enum Coloring {
    Always,
    Auto,
    Never,
}

/// The name of an option on the command line.
pub open spec fn opt_name(o: ColorOpt) -> Seq<char> {
    match o {
        ColorOpt::Auto => seq!['a', 'u', 't', 'o'],
        ColorOpt::Always => seq!['a', 'l', 'w', 'a', 'y', 's'],
        ColorOpt::Never => seq!['n', 'e', 'v', 'e', 'r'],
    }
}

/// The coloring for option `o` when standard output is a terminal or not:
/// `Auto` colors only a terminal.
pub open spec fn coloring_of(o: ColorOpt, stdout_is_tty: bool) -> Coloring {
    match o {
        ColorOpt::Auto => if stdout_is_tty {
            Coloring::Auto
        } else {
            Coloring::Never
        },
        ColorOpt::Always => Coloring::Always,
        ColorOpt::Never => Coloring::Never,
    }
}

impl ColorOpt {
    /// Every option, in the order the command line lists them.
    pub fn value_variants() -> (r: Vec<ColorOpt>)
        ensures
            r@ == seq![ColorOpt::Auto, ColorOpt::Always, ColorOpt::Never],
    {
        vec![ColorOpt::Auto, ColorOpt::Always, ColorOpt::Never]
    }

    /// The option's name on the command line.
    pub fn name(&self) -> (r: &'static str)
        ensures
            r@ == opt_name(*self),
    {
        match self {
            ColorOpt::Auto => {
                let r = "auto";
                proof {
                    reveal_strlit("auto");
                }
                assert(r@ =~= opt_name(*self));
                r
            },
            ColorOpt::Always => {
                let r = "always";
                proof {
                    reveal_strlit("always");
                }
                assert(r@ =~= opt_name(*self));
                r
            },
            ColorOpt::Never => {
                let r = "never";
                proof {
                    reveal_strlit("never");
                }
                assert(r@ =~= opt_name(*self));
                r
            },
        }
    }

    /// The coloring for this option, given whether standard output is a
    /// terminal.
    pub fn coloring(self, stdout_is_tty: bool) -> (r: Coloring)
        ensures
            r == coloring_of(self, stdout_is_tty),
    {
        match self {
            ColorOpt::Auto => {
                if stdout_is_tty {
                    Coloring::Auto
                } else {
                    Coloring::Never
                }
            },
            ColorOpt::Always => Coloring::Always,
            ColorOpt::Never => Coloring::Never,
        }
    }
}

} // verus!
