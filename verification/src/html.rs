//! What the HTML export needs from the library: the generator's
//! configuration and the two stylesheets. Writing the HTML document
//! itself is I/O glue and lives with the program around the library.

use vstd::prelude::*;

verus! {

/// The fixed default stylesheet for the exported timetable.
pub open spec fn spec_default_css() -> Seq<char> {
    "\nh1 {font-family:Arial, sans-serif;text-align:center;}\n.tg {border-collapse:collapse;border-color:#9ABAD9;border-spacing:0;width:100%}\n.tg td {background-color:#EBF5FF;border-color:#9ABAD9;border-style:solid;border-width:1px;color:#444;\n  font-family:Arial, sans-serif;font-size:14px;overflow:hidden;padding:5px 20px;word-break:normal;text-align:center;}\n.tg th {background-color:#409cff;border-color:#9ABAD9;border-style:solid;border-width:1px;color:#fff;\n  font-family:Arial, sans-serif;font-size:14px;font-weight:normal;overflow:hidden;padding:5px 20px;word-break:normal;}\n.tg tg-baqh{text-align:center;vertical-align:top}\n"@
}

/// The editable template stylesheet.
pub open spec fn spec_template_css() -> Seq<char> {
    "\nh1 {font-family:Arial, sans-serif;text-align:center;}\n.tg {}\n.tg td {}\n.tg th {}\n.tg tg-baqh{}\n"@
}

/// The default CSS for the exported timetable, ready to write out.
pub fn generate_default_css() -> (r: String)
    ensures
        r@ == spec_default_css(),
{
    "\nh1 {font-family:Arial, sans-serif;text-align:center;}\n.tg {border-collapse:collapse;border-color:#9ABAD9;border-spacing:0;width:100%}\n.tg td {background-color:#EBF5FF;border-color:#9ABAD9;border-style:solid;border-width:1px;color:#444;\n  font-family:Arial, sans-serif;font-size:14px;overflow:hidden;padding:5px 20px;word-break:normal;text-align:center;}\n.tg th {background-color:#409cff;border-color:#9ABAD9;border-style:solid;border-width:1px;color:#fff;\n  font-family:Arial, sans-serif;font-size:14px;font-weight:normal;overflow:hidden;padding:5px 20px;word-break:normal;}\n.tg tg-baqh{text-align:center;vertical-align:top}\n".to_owned()
}

/// A template CSS for the timetable, meant for custom editing.
pub fn generate_template_css() -> (r: String)
    ensures
        r@ == spec_template_css(),
{
    "\nh1 {font-family:Arial, sans-serif;text-align:center;}\n.tg {}\n.tg td {}\n.tg th {}\n.tg tg-baqh{}\n".to_owned()
}

/// Configuration of the HTML timetable export.
pub struct TimetableGenerator {
    pub generate_css: bool,
    pub custom_month: Option<u32>,
}

impl TimetableGenerator {
    pub fn new(generate_css: bool, custom_month: Option<u32>) -> (r: Self)
        ensures
            r == (TimetableGenerator { generate_css, custom_month }),
    {
        Self { generate_css, custom_month }
    }
}

} // verus!
