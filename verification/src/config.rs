//! Where the saved connections are kept on disk.

use vstd::prelude::*;
use crate::connection::opt_view;
use crate::text::push_str;

verus! {

/// The file name the saved connections are kept under by default.
pub open spec fn default_file_name() -> Seq<char> {
    seq!['c', 'o', 'n', 'n', 'e', 'c', 't', 'i', 'o', 'n', 's', '.', 'j', 's', 'o', 'n']
}

/// The path of the configuration file, as components to be joined: the path
/// given in `SQL_WORKBENCH_CONFIG` when it is set, else
/// `<home>/.config/sql-workbench/connections.json`, with `<home>` the value
/// of `HOME`, or `.` when that is unset.
pub open spec fn spec_config_path_parts(config: Option<Seq<char>>, home: Option<Seq<char>>) -> Seq<
    Seq<char>,
> {
    match config {
        Some(p) => seq![p],
        None => seq![
            match home {
                Some(h) => h,
                None => seq!['.'],
            },
            seq!['.', 'c', 'o', 'n', 'f', 'i', 'g'],
            seq!['s', 'q', 'l', '-', 'w', 'o', 'r', 'k', 'b', 'e', 'n', 'c', 'h'],
            default_file_name(),
        ],
    }
}

fn text(t: &str) -> (s: String)
    ensures
        s@ == t@,
{
    t.to_owned()
}

/// The components of the configuration file's path, from the values of
/// `SQL_WORKBENCH_CONFIG` and `HOME` (`None` when unset).
pub fn config_path_parts(config: Option<String>, home: Option<String>) -> (parts: Vec<String>)
    ensures
        parts@.map_values(|s: String| s@) == spec_config_path_parts(opt_view(config), opt_view(home)),
{
    let ghost cv = opt_view(config);
    let ghost hv = opt_view(home);
    let mut parts: Vec<String> = Vec::new();
    match config {
        Some(p) => {
            parts.push(p);
        },
        None => {
            proof {
                reveal_strlit(".");
                reveal_strlit(".config");
                reveal_strlit("sql-workbench");
                reveal_strlit("connections.json");
            }
            let base = match home {
                Some(h) => h,
                None => text("."),
            };
            assert(base@ == match hv {
                Some(h) => h,
                None => seq!['.'],
            });
            parts.push(base);
            parts.push(text(".config"));
            parts.push(text("sql-workbench"));
            parts.push(text("connections.json"));
            assert(parts@[0]@ == match hv {
                Some(h) => h,
                None => seq!['.'],
            });
            assert(parts@[1]@ =~= seq!['.', 'c', 'o', 'n', 'f', 'i', 'g']);
            assert(parts@[2]@ =~= seq!['s', 'q', 'l', '-', 'w', 'o', 'r', 'k', 'b', 'e', 'n', 'c', 'h']);
            assert(parts@[3]@ =~= default_file_name());
        },
    }
    assert(parts@.map_values(|s: String| s@) =~= spec_config_path_parts(cv, hv));
    parts
}

/// The name of the file the saved connections are first written to, before
/// it replaces the configuration file: that file's name (or
/// `connections.json` when it has none) followed by `.tmp`.
pub fn temp_file_name(file_name: Option<String>) -> (t: String)
    ensures
        t@ == match file_name {
            Some(f) => f@,
            None => default_file_name(),
        } + seq!['.', 't', 'm', 'p'],
{
    proof {
        reveal_strlit("connections.json");
        reveal_strlit(".tmp");
    }
    let mut t = match file_name {
        Some(f) => f,
        None => text("connections.json"),
    };
    push_str(&mut t, ".tmp");
    t
}

} // verus!
