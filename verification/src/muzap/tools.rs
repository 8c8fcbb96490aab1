//! The tools screen: the service log as lines to show.
use vstd::prelude::*;

use crate::text::{chars_of, lines_chars, lines_of, string_views, strings_from, to_string};

verus! {

/// The lines the log viewer shows: a note when the log is missing (`None`)
/// or empty, else the log's lines.
pub open spec fn spec_log_lines(text: Option<Seq<char>>) -> Seq<Seq<char>> {
    match text {
        None => seq!["(лог службы не найден)"@],
        Some(t) => if lines_of(t).len() == 0 { seq!["(лог пуст)"@] } else { lines_of(t) },
    }
}

/// The service log's lines to show, given its text (`None` when the file does not exist).
pub fn read_service_log_lines(text: Option<&str>) -> (r: Vec<String>)
    ensures
        string_views(r@) == spec_log_lines(crate::muzap::settings::opt_view(text)),
{
    match text {
        None => {
            let mut v: Vec<String> = Vec::new();
            v.push(to_string("(лог службы не найден)"));
            assert(string_views(v@) =~= seq!["(лог службы не найден)"@]);
            v
        },
        Some(t) => {
            let ls = lines_chars(&chars_of(t));
            let mut v = strings_from(&ls);
            if v.len() == 0 {
                v.push(to_string("(лог пуст)"));
                assert(string_views(v@) =~= seq!["(лог пуст)"@]);
            }
            v
        },
    }
}

} // verus!
