use vstd::prelude::*;
use crate::size::{parse_size, parsed_size_of};
use crate::text::{chars_of, occurs_at_exec};

verus! {

/// The settings of one scan, as given on the command line.
///
/// The size settings are held both as written (`"100M"`) and, once
/// [`Options::parse_sizes`] has run, as byte counts.
pub struct Options {
    pub version: bool,
    pub target: String,
    pub huge_file_size: String,
    pub parsed_huge_file_size: u64,
    pub large_text_file_size: String,
    pub parsed_large_text_file_size: u64,
    pub dir: String,
    pub file_ext: String,
    pub ignore_case: bool,
    pub filter_large_line: bool,
    pub large_line_size: String,
    pub parsed_large_line_size: u64,
    pub scan_dot_git: bool,
    pub skip_target_dir: bool,
    pub skip_dot_dir: bool,
    pub skip_link_dir: bool,
    pub filter_file_name: String,
    pub filter_line_content: String,
    pub verbose: bool,
    pub search_text: String,
}

/// Why the settings cannot be used.
pub enum OptionsError {
    /// A size setting that is not a byte count; it holds the text as written.
    MalformedSize(String),
}

/// The byte count that a size text stands for, where it is well-formed: the
/// parsed value taken as a `u64`, as a cast takes it.
pub open spec fn size_value(s: Seq<char>) -> Option<u64> {
    match parsed_size_of(s) {
        Some(n) => Some(#[verifier::truncate] (n as u64)),
        None => None,
    }
}

/// The byte count of a size text, or `None` where the text is malformed.
pub fn size_bytes(s: &str) -> (r: Option<u64>)
    ensures
        r == size_value(s@),
{
    match parse_size(s) {
        Some(n) => Some(#[verifier::truncate] (n as u64)),
        None => None,
    }
}

impl Options {
    /// The default settings: text mode over the current directory, huge
    /// files from `100M`, text files read up to `10M`, long lines from
    /// `10KB`, every switch off and every filter empty.
    pub fn new() -> (r: Options)
        ensures
            !r.version,
            r.target@ == "text"@,
            r.huge_file_size@ == "100M"@,
            r.parsed_huge_file_size == 0,
            r.large_text_file_size@ == "10M"@,
            r.parsed_large_text_file_size == 0,
            r.dir@ == "."@,
            r.file_ext@.len() == 0,
            !r.ignore_case,
            !r.filter_large_line,
            r.large_line_size@ == "10KB"@,
            r.parsed_large_line_size == 0,
            !r.scan_dot_git,
            !r.skip_target_dir,
            !r.skip_dot_dir,
            !r.skip_link_dir,
            r.filter_file_name@.len() == 0,
            r.filter_line_content@.len() == 0,
            !r.verbose,
            r.search_text@.len() == 0,
    {
        Options {
            version: false,
            target: "text".to_owned(),
            huge_file_size: "100M".to_owned(),
            parsed_huge_file_size: 0,
            large_text_file_size: "10M".to_owned(),
            parsed_large_text_file_size: 0,
            dir: ".".to_owned(),
            file_ext: String::new(),
            ignore_case: false,
            filter_large_line: false,
            large_line_size: "10KB".to_owned(),
            parsed_large_line_size: 0,
            scan_dot_git: false,
            skip_target_dir: false,
            skip_dot_dir: false,
            skip_link_dir: false,
            filter_file_name: String::new(),
            filter_line_content: String::new(),
            verbose: false,
            search_text: String::new(),
        }
    }

    /// Turns the three size settings into byte counts.
    ///
    /// Succeeds exactly when each of them is a well-formed size; then it
    /// sets the three byte counts, each the parsed value taken as a `u64`,
    /// and nothing else. Otherwise
    /// it changes nothing and names the first malformed setting, in the
    /// order huge file, large text file, large line.
    pub fn parse_sizes(&mut self) -> (r: Result<(), OptionsError>)
        ensures
            (r is Ok) <==> (size_value(old(self).huge_file_size@) is Some
                && size_value(old(self).large_text_file_size@) is Some
                && size_value(old(self).large_line_size@) is Some),
            r is Ok ==> *final(self) == (Options {
                parsed_huge_file_size: size_value(old(self).huge_file_size@)->Some_0,
                parsed_large_text_file_size: size_value(old(self).large_text_file_size@)->Some_0,
                parsed_large_line_size: size_value(old(self).large_line_size@)->Some_0,
                ..*old(self)
            }),
            r is Err ==> *final(self) == *old(self),
            r matches Err(OptionsError::MalformedSize(t)) ==> t@ == (
                if size_value(old(self).huge_file_size@) is None {
                    old(self).huge_file_size@
                } else if size_value(old(self).large_text_file_size@) is None {
                    old(self).large_text_file_size@
                } else {
                    old(self).large_line_size@
                }),
    {
        let huge = match size_bytes(self.huge_file_size.as_str()) {
            Some(n) => n,
            None => return Err(OptionsError::MalformedSize(self.huge_file_size.clone())),
        };
        let large_text = match size_bytes(self.large_text_file_size.as_str()) {
            Some(n) => n,
            None => return Err(OptionsError::MalformedSize(self.large_text_file_size.clone())),
        };
        let large_line = match size_bytes(self.large_line_size.as_str()) {
            Some(n) => n,
            None => return Err(OptionsError::MalformedSize(self.large_line_size.clone())),
        };
        self.parsed_huge_file_size = huge;
        self.parsed_large_text_file_size = large_text;
        self.parsed_large_line_size = large_line;
        Ok(())
    }
}

/// What a scan looks for.
#[derive(Clone, Copy, Debug, PartialEq, Eq, Structural)]
pub enum Target {
    /// Files whose length reaches the huge-file threshold.
    Huge,
    /// Lines of text files that hold the search text.
    Text,
}

/// The scan that a target setting names: `"huge"` or `"hugefile"` for huge
/// files, `"text"` for text; any other setting names none.
pub open spec fn target_of(s: Seq<char>) -> Option<Target> {
    if s == "huge"@ || s == "hugefile"@ {
        Some(Target::Huge)
    } else if s == "text"@ {
        Some(Target::Text)
    } else {
        None
    }
}

fn same_text(a: &Vec<char>, b: &str) -> (r: bool)
    ensures
        r == (a@ == b@),
{
    let bc = chars_of(b);
    if a.len() != bc.len() {
        return false;
    }
    let r = occurs_at_exec(a, &bc, 0);
    assert(r == (a@ == bc@)) by {
        assert(a@.subrange(0, bc@.len() as int) =~= a@);
    }
    r
}

/// The scan that a target setting names, as [`target_of`] describes it.
pub fn parse_target(s: &str) -> (r: Option<Target>)
    ensures
        r == target_of(s@),
{
    let c = chars_of(s);
    if same_text(&c, "huge") || same_text(&c, "hugefile") {
        Some(Target::Huge)
    } else if same_text(&c, "text") {
        Some(Target::Text)
    } else {
        None
    }
}

} // verus!
