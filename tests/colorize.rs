use std::io;

use colorize_json::{
    ColorOpt, ColorizedFormatter, ColorizedSerializerBuilder, Coloring, Event, Hue, Indent,
    NoopWriter, Op, Role, Style,
};
use serde::Serialize;
use serde_json::ser::{CharEscape, CompactFormatter, Formatter, PrettyFormatter};
use termcolor::{Buffer, Color, ColorSpec, WriteColor};

fn to_color(h: Hue) -> Color {
    match h {
        Hue::Black => Color::Black,
        Hue::Blue => Color::Blue,
        Hue::Green => Color::Green,
        Hue::Red => Color::Red,
        Hue::Cyan => Color::Cyan,
        Hue::Magenta => Color::Magenta,
        Hue::Yellow => Color::Yellow,
        Hue::White => Color::White,
        Hue::Ansi256(n) => Color::Ansi256(n),
        Hue::Rgb(r, g, b) => Color::Rgb(r, g, b),
    }
}

fn to_spec(s: Style) -> ColorSpec {
    let mut spec = ColorSpec::new();
    spec.set_fg(s.fg.map(to_color))
        .set_bg(s.bg.map(to_color))
        .set_bold(s.bold)
        .set_intense(s.intense)
        .set_underline(s.underline)
        .set_dimmed(s.dimmed)
        .set_italic(s.italic);
    spec
}

struct Colorized<'w, F> {
    state: ColorizedFormatter,
    inner: F,
    out: &'w mut Buffer,
}

impl<'w, F: Formatter> Colorized<'w, F> {
    fn run<G>(&mut self, e: Event, call: G) -> io::Result<()>
    where
        G: FnOnce(&mut F, &mut Buffer) -> io::Result<()>,
    {
        let mut call = Some(call);
        for op in self.state.handle(e) {
            match op {
                Op::Apply(role) => self.out.set_color(&to_spec(self.state.style(role)))?,
                Op::Inner => (call.take().unwrap())(&mut self.inner, &mut *self.out)?,
                Op::Reset => self.out.reset()?,
            }
        }
        Ok(())
    }
}

impl<'w, F: Formatter> Formatter for Colorized<'w, F> {
    fn write_null<W: ?Sized + io::Write>(&mut self, _: &mut W) -> io::Result<()> {
        self.run(Event::Null, |f, o| f.write_null(o))
    }
    fn write_bool<W: ?Sized + io::Write>(&mut self, _: &mut W, v: bool) -> io::Result<()> {
        self.run(Event::Bool, |f, o| f.write_bool(o, v))
    }
    fn write_i64<W: ?Sized + io::Write>(&mut self, _: &mut W, v: i64) -> io::Result<()> {
        self.run(Event::Integer, |f, o| f.write_i64(o, v))
    }
    fn write_u64<W: ?Sized + io::Write>(&mut self, _: &mut W, v: u64) -> io::Result<()> {
        self.run(Event::Integer, |f, o| f.write_u64(o, v))
    }
    fn write_f64<W: ?Sized + io::Write>(&mut self, _: &mut W, v: f64) -> io::Result<()> {
        self.run(Event::Float, |f, o| f.write_f64(o, v))
    }
    fn begin_string<W: ?Sized + io::Write>(&mut self, _: &mut W) -> io::Result<()> {
        self.run(Event::BeginString, |f, o| f.begin_string(o))
    }
    fn end_string<W: ?Sized + io::Write>(&mut self, _: &mut W) -> io::Result<()> {
        self.run(Event::EndString, |f, o| f.end_string(o))
    }
    fn write_string_fragment<W: ?Sized + io::Write>(
        &mut self,
        _: &mut W,
        s: &str,
    ) -> io::Result<()> {
        self.run(Event::StringFragment, |f, o| f.write_string_fragment(o, s))
    }
    fn write_char_escape<W: ?Sized + io::Write>(
        &mut self,
        _: &mut W,
        c: CharEscape,
    ) -> io::Result<()> {
        self.run(Event::CharEscape, |f, o| f.write_char_escape(o, c))
    }
    fn begin_array<W: ?Sized + io::Write>(&mut self, _: &mut W) -> io::Result<()> {
        self.run(Event::BeginArray, |f, o| f.begin_array(o))
    }
    fn end_array<W: ?Sized + io::Write>(&mut self, _: &mut W) -> io::Result<()> {
        self.run(Event::EndArray, |f, o| f.end_array(o))
    }
    fn begin_array_value<W: ?Sized + io::Write>(&mut self, _: &mut W, first: bool) -> io::Result<()> {
        self.run(Event::BeginArrayValue, |f, o| f.begin_array_value(o, first))
    }
    fn end_array_value<W: ?Sized + io::Write>(&mut self, _: &mut W) -> io::Result<()> {
        self.run(Event::EndArrayValue, |f, o| f.end_array_value(o))
    }
    fn begin_object<W: ?Sized + io::Write>(&mut self, _: &mut W) -> io::Result<()> {
        self.run(Event::BeginObject, |f, o| f.begin_object(o))
    }
    fn end_object<W: ?Sized + io::Write>(&mut self, _: &mut W) -> io::Result<()> {
        self.run(Event::EndObject, |f, o| f.end_object(o))
    }
    fn begin_object_key<W: ?Sized + io::Write>(&mut self, _: &mut W, first: bool) -> io::Result<()> {
        self.run(Event::BeginObjectKey, |f, o| f.begin_object_key(o, first))
    }
    fn end_object_key<W: ?Sized + io::Write>(&mut self, _: &mut W) -> io::Result<()> {
        self.run(Event::EndObjectKey, |f, o| f.end_object_key(o))
    }
    fn begin_object_value<W: ?Sized + io::Write>(&mut self, _: &mut W) -> io::Result<()> {
        self.run(Event::BeginObjectValue, |f, o| f.begin_object_value(o))
    }
    fn end_object_value<W: ?Sized + io::Write>(&mut self, _: &mut W) -> io::Result<()> {
        self.run(Event::EndObjectValue, |f, o| f.end_object_value(o))
    }
}

fn render<F: Formatter>(builder: ColorizedSerializerBuilder<F>, value: &serde_json::Value) -> Vec<u8> {
    let mut out = Buffer::ansi();
    let (state, inner) = builder.build();
    {
        let formatter = Colorized { state, inner, out: &mut out };
        let mut ser = serde_json::Serializer::with_formatter(io::sink(), formatter);
        value.serialize(&mut ser).unwrap();
    }
    out.into_inner()
}

fn sample() -> serde_json::Value {
    let mut map = serde_json::Map::new();
    map.insert("a".to_string(), serde_json::Value::String("x".to_string()));
    map.insert("b".to_string(), serde_json::Value::Null);
    serde_json::Value::Object(map)
}

const KEY: &str = "\x1b[0m\x1b[1m\x1b[34m";
const STR: &str = "\x1b[0m\x1b[1m\x1b[32m";
const NULL: &str = "\x1b[0m\x1b[1m\x1b[30m";
const RESET: &str = "\x1b[0m";

fn sample_events() -> Vec<Event> {
    vec![
        Event::BeginObject,
        Event::BeginObjectKey,
        Event::BeginString,
        Event::StringFragment,
        Event::EndString,
        Event::EndObjectKey,
        Event::BeginObjectValue,
        Event::BeginString,
        Event::StringFragment,
        Event::EndString,
        Event::EndObjectValue,
        Event::BeginObjectKey,
        Event::BeginString,
        Event::StringFragment,
        Event::EndString,
        Event::EndObjectKey,
        Event::BeginObjectValue,
        Event::Null,
        Event::EndObjectValue,
        Event::EndObject,
    ]
}

#[test]
fn compact_object_is_wrapped_in_styles() {
    let bytes = render(ColorizedSerializerBuilder::new(), &sample());
    let expected = format!(
        "{{{KEY}\"a\"{RESET}:{STR}\"x\"{RESET},{KEY}\"b\"{RESET}:{NULL}null{RESET}}}"
    );
    assert_eq!(String::from_utf8(bytes).unwrap(), expected);
}

#[test]
fn pretty_object_keeps_whitespace_unstyled() {
    let bytes = render(ColorizedSerializerBuilder::pretty(), &sample());
    let expected = format!(
        "{{\n  {KEY}\"a\"{RESET}: {STR}\"x\"{RESET},\n  {KEY}\"b\"{RESET}: {NULL}null{RESET}\n}}"
    );
    assert_eq!(String::from_utf8(bytes).unwrap(), expected);
}

#[test]
fn custom_formatter_and_styles() {
    let mut red = Style::new();
    red.set_fg(Some(Hue::Red));
    let builder = ColorizedSerializerBuilder::with_formatter(PrettyFormatter::with_indent(b"\t"))
        .with_object_key_color(red)
        .with_string_color(Style::new())
        .with_null_color(red);
    let bytes = render(builder, &sample());
    let plain = "\x1b[0m";
    let r = "\x1b[0m\x1b[31m";
    let expected = format!(
        "{{\n\t{r}\"a\"{RESET}: {plain}\"x\"{RESET},\n\t{r}\"b\"{RESET}: {r}null{RESET}\n}}"
    );
    assert_eq!(String::from_utf8(bytes).unwrap(), expected);
}

#[test]
fn numbers_and_booleans_get_no_style() {
    let value = serde_json::Value::Array(vec![
        serde_json::Value::from(12),
        serde_json::Value::from(-3),
        serde_json::Value::from(1.5),
        serde_json::Value::Bool(true),
        serde_json::Value::Array(vec![]),
    ]);
    let bytes = render(ColorizedSerializerBuilder::new(), &value);
    assert_eq!(String::from_utf8(bytes).unwrap(), "[12,-3,1.5,true,[]]");
}

#[test]
fn escapes_stay_inside_the_string_style() {
    let value = serde_json::Value::String("a\"b\n".to_string());
    let bytes = render(ColorizedSerializerBuilder::new(), &value);
    let expected = format!("{STR}\"a\\\"b\\n\"{RESET}");
    assert_eq!(String::from_utf8(bytes).unwrap(), expected);
}

#[test]
fn fresh_formatters_give_identical_bytes() {
    let first = render(ColorizedSerializerBuilder::pretty(), &sample());
    let second = render(ColorizedSerializerBuilder::pretty(), &sample());
    assert_eq!(first, second);
    let (mut a, _) = ColorizedSerializerBuilder::new().build();
    let (mut b, _) = ColorizedSerializerBuilder::new().build();
    assert_eq!(a.handle_all(&sample_events()), b.handle_all(&sample_events()));
}

#[test]
fn commands_for_sample_object() {
    let (mut f, _) = ColorizedSerializerBuilder::new().build();
    let ops = f.handle_all(&sample_events());
    let expected = vec![
        Op::Inner,
        Op::Inner,
        Op::Apply(Role::ObjectKey),
        Op::Inner,
        Op::Inner,
        Op::Inner,
        Op::Reset,
        Op::Inner,
        Op::Inner,
        Op::Apply(Role::Str),
        Op::Inner,
        Op::Inner,
        Op::Inner,
        Op::Reset,
        Op::Inner,
        Op::Inner,
        Op::Apply(Role::ObjectKey),
        Op::Inner,
        Op::Inner,
        Op::Inner,
        Op::Reset,
        Op::Inner,
        Op::Inner,
        Op::Apply(Role::Null),
        Op::Inner,
        Op::Reset,
        Op::Inner,
        Op::Inner,
    ];
    assert_eq!(ops, expected);
    assert!(!f.is_object_key());
}

#[test]
fn style_commands_alternate() {
    let (mut f, _) = ColorizedSerializerBuilder::new().build();
    let styles: Vec<Op> = f
        .handle_all(&sample_events())
        .into_iter()
        .filter(|o| *o != Op::Inner)
        .collect();
    assert_eq!(styles.len() % 2, 0);
    for (i, o) in styles.iter().enumerate() {
        assert_eq!(*o == Op::Reset, i % 2 == 1);
    }
}

#[test]
fn key_flag_selects_key_style() {
    let (mut f, _) = ColorizedSerializerBuilder::new().build();
    assert_eq!(f.handle(Event::BeginString), vec![Op::Apply(Role::Str), Op::Inner]);
    assert_eq!(f.handle(Event::EndString), vec![Op::Inner, Op::Reset]);
    assert_eq!(f.handle(Event::BeginObjectKey), vec![Op::Inner]);
    assert!(f.is_object_key());
    assert_eq!(f.handle(Event::BeginString), vec![Op::Apply(Role::ObjectKey), Op::Inner]);
    assert_eq!(f.handle(Event::StringFragment), vec![Op::Inner]);
    assert_eq!(f.handle(Event::EndString), vec![Op::Inner, Op::Reset]);
    assert_eq!(f.handle(Event::EndObjectKey), vec![Op::Inner]);
    assert!(!f.is_object_key());
    assert_eq!(f.handle(Event::Null), vec![Op::Apply(Role::Null), Op::Inner, Op::Reset]);
    assert_eq!(f.handle(Event::Integer), vec![Op::Inner]);
}

#[test]
fn default_styles() {
    let (f, _) = ColorizedSerializerBuilder::new().build();
    let mut key = Style::new();
    key.set_fg(Some(Hue::Blue));
    key.set_bold(true);
    assert_eq!(f.style(Role::ObjectKey), key);
    assert_eq!(f.style(Role::Str).fg, Some(Hue::Green));
    assert_eq!(f.style(Role::Null).fg, Some(Hue::Black));
    assert!(f.style(Role::Null).bold);
    assert!(!f.style(Role::Str).italic);
}

#[test]
fn indent_default_renders_nothing() {
    assert!(Indent::default().render().is_empty());
}

#[test]
fn indent_increments_render_two_spaces_each() {
    let mut i = Indent::default();
    for _ in 0..3 {
        i = i.inc();
    }
    assert_eq!(i.render(), b"      ".to_vec());
}

#[test]
fn indent_with_size_then_inc_uses_new_size() {
    let i = Indent::default().with_size(4).inc();
    assert_eq!(i.render(), b"    ".to_vec());
    let j = Indent::default().inc().inc().with_size(3);
    assert_eq!(j.render(), vec![b' '; 6]);
}

#[test]
fn color_options() {
    assert_eq!(
        ColorOpt::value_variants(),
        vec![ColorOpt::Auto, ColorOpt::Always, ColorOpt::Never]
    );
    assert_eq!(ColorOpt::Auto.name(), "auto");
    assert_eq!(ColorOpt::Always.name(), "always");
    assert_eq!(ColorOpt::Never.name(), "never");
    assert_eq!(ColorOpt::Auto.coloring(true), Coloring::Auto);
    assert_eq!(ColorOpt::Auto.coloring(false), Coloring::Never);
    assert_eq!(ColorOpt::Always.coloring(false), Coloring::Always);
    assert_eq!(ColorOpt::Never.coloring(true), Coloring::Never);
}

#[test]
fn noop_writer_accepts_everything() {
    let mut w = NoopWriter;
    assert_eq!(w.write(b"abc"), 3);
    assert_eq!(w.write(b""), 0);
    w.flush();
}
