//! What `repon config` prints: where each file is looked for and whether it is there.

use vstd::prelude::*;

verus! {

broadcast use {vstd::string::group_string_axioms, vstd::seq_lib::group_seq_properties};

/// The word for a file that is there, or for one that is not.
pub open spec fn existence_word(there: bool) -> Seq<char> {
    if there {
        "exists"@
    } else {
        "missing"@
    }
}

/// The word for a file that is there, or for one that is not.
pub fn existence(there: bool) -> (word: &'static str)
    ensures
        word@ == existence_word(there),
{
    if there {
        "exists"
    } else {
        "missing"
    }
}

/// The resolved paths, and which of the two files exist.
#[derive(Debug, Clone, PartialEq, Eq)]
pub struct ConfigPaths {
    pub config_file: String,
    pub config_file_exists: bool,
    pub themes_dir: String,
    pub data_dir: String,
    pub log_file: String,
    pub log_file_exists: bool,
}

/// The report's own four lines.
pub open spec fn report_lines(paths: ConfigPaths) -> Seq<Seq<char>> {
    seq![
        "config file: "@ + paths.config_file@ + " ("@ + existence_word(paths.config_file_exists)
            + ")"@,
        "themes dir:  "@ + paths.themes_dir@,
        "data dir:    "@ + paths.data_dir@,
        "log file:    "@ + paths.log_file@ + " ("@ + existence_word(paths.log_file_exists) + ")"@,
    ]
}

fn with_existence(label: &str, path: &str, there: bool) -> (line: String)
    ensures
        line@ == label@ + path@ + " ("@ + existence_word(there) + ")"@,
{
    label.to_owned().concat(path).concat(" (").concat(existence(there)).concat(")")
}

impl ConfigPaths {
    /// The report's own lines: the config file, the themes directory, the data directory and the
    /// log file, the two files with whether they exist.
    pub fn report(&self) -> (lines: Vec<String>)
        ensures
            lines.deep_view() == report_lines(*self),
    {
        let lines: Vec<String> = vec![
            with_existence(
                "config file: ",
                self.config_file.as_str(),
                self.config_file_exists,
            ),
            "themes dir:  ".to_owned().concat(self.themes_dir.as_str()),
            "data dir:    ".to_owned().concat(self.data_dir.as_str()),
            with_existence("log file:    ", self.log_file.as_str(), self.log_file_exists),
        ];
        proof {
            assert(lines.deep_view() =~= report_lines(*self));
        }
        lines
    }
}


/// The report names each path behind its own label, the two files with whether they are there,
/// each by its own answer.
pub proof fn law_the_report_names_every_path(paths: ConfigPaths)
    ensures
        report_lines(paths).len() == 4,
        report_lines(paths)[0] == "config file: "@ + paths.config_file@ + if paths.config_file_exists {
            " (exists)"@
        } else {
            " (missing)"@
        },
        report_lines(paths)[1] == "themes dir:  "@ + paths.themes_dir@,
        report_lines(paths)[2] == "data dir:    "@ + paths.data_dir@,
        report_lines(paths)[3] == "log file:    "@ + paths.log_file@ + if paths.log_file_exists {
            " (exists)"@
        } else {
            " (missing)"@
        },
{
    reveal_strlit(" (exists)");
    reveal_strlit(" (missing)");
    reveal_strlit(" (");
    reveal_strlit(")");
    reveal_strlit("exists");
    reveal_strlit("missing");
    let lines = report_lines(paths);
    assert(lines[0] =~= "config file: "@ + paths.config_file@ + if paths.config_file_exists {
        " (exists)"@
    } else {
        " (missing)"@
    });
    assert(lines[3] =~= "log file:    "@ + paths.log_file@ + if paths.log_file_exists {
        " (exists)"@
    } else {
        " (missing)"@
    });
}

} // verus!
