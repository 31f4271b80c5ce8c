
pub mod color;
pub mod formatter;
pub mod indent;
pub mod style;

pub use color::{ColorOpt, Coloring};
pub use formatter::{ColorizedFormatter, ColorizedSerializerBuilder, Event, NoopWriter, Op, Role};
pub use indent::Indent;
pub use style::{Hue, Style};

