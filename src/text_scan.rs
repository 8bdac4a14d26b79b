use vstd::prelude::*;
use crate::counter::CountCell;
use crate::options::Options;
use crate::text::{
    chars_of, contains, contains_chars, contains_str, ends_with, ends_with_chars, lower_of,
    lowercase, match_line_views, match_lines, matched_lines, split_on, split_text, string_views,
    MatchLine,
};

verus! {

/// A character with the Unicode `White_Space` property, as
/// `char::is_whitespace` decides it.
pub open spec fn is_white_space(c: char) -> bool {
    let n = c as u32;
    ||| 0x9 <= n <= 0xD
    ||| n == 0x20
    ||| n == 0x85
    ||| n == 0xA0
    ||| n == 0x1680
    ||| 0x2000 <= n <= 0x200A
    ||| n == 0x2028
    ||| n == 0x2029
    ||| n == 0x202F
    ||| n == 0x205F
    ||| n == 0x3000
}

/// A text without its leading white space.
pub open spec fn trim_start_of(s: Seq<char>) -> Seq<char>
    decreases s.len(),
{
    if s.len() > 0 && is_white_space(s[0]) {
        trim_start_of(s.drop_first())
    } else {
        s
    }
}

/// A text without its trailing white space.
pub open spec fn trim_end_of(s: Seq<char>) -> Seq<char>
    decreases s.len(),
{
    if s.len() > 0 && is_white_space(s.last()) {
        trim_end_of(s.drop_last())
    } else {
        s
    }
}

/// A text without its leading and trailing white space.
pub open spec fn trim_of(s: Seq<char>) -> Seq<char> {
    trim_end_of(trim_start_of(s))
}

/// Relies on `str::trim`: the text without the leading and trailing
/// characters that `char::is_whitespace` accepts, which are those with the
/// Unicode `White_Space` property.
#[verifier::external_body]
fn trimmed(s: &str) -> (r: String)
    ensures
        r@ == trim_of(s@),
{
    s.trim().to_owned()
}

/// The suffixes named by the first `n` pieces of an extension list: each
/// piece trimmed, empty ones dropped, the others lower-cased after a dot.
pub open spec fn ext_suffixes(pieces: Seq<Seq<char>>, n: nat) -> Seq<Seq<char>>
    decreases n,
{
    if n == 0 {
        seq![]
    } else {
        let before = ext_suffixes(pieces, (n - 1) as nat);
        let t = trim_of(pieces[n - 1]);
        if t.len() == 0 {
            before
        } else {
            before.push(lower_of("."@ + t))
        }
    }
}

/// The file-name suffixes that a comma-separated extension list allows,
/// such as `".rs"` and `".txt"` for `"rs, TXT"`. An empty list allows none,
/// which leaves every file admitted.
pub open spec fn ext_list(csv: Seq<char>) -> Seq<Seq<char>> {
    if csv.len() == 0 {
        seq![]
    } else {
        ext_suffixes(split_on(csv, ","@), split_on(csv, ","@).len())
    }
}

/// The file-name suffixes that a comma-separated extension list allows, as
/// [`ext_list`] describes them.
pub fn parse_file_exts(csv: &str) -> (r: Vec<String>)
    ensures
        string_views(r@) == ext_list(csv@),
{
    if csv.is_empty() {
        return Vec::new();
    }
    let pieces = split_text(csv, ",");
    let ghost all = split_on(csv@, ","@);
    let mut out: Vec<String> = Vec::new();
    let mut i: usize = 0;
    while i < pieces.len()
        invariant
            string_views(pieces@) == all,
            all == split_on(csv@, ","@),
            i <= pieces@.len(),
            string_views(out@) == ext_suffixes(all, i as nat),
        decreases pieces@.len() - i,
    {
        assert(pieces@[i as int]@ == all[i as int]);
        let t = trimmed(pieces[i].as_str());
        if !t.as_str().is_empty() {
            let mut e = ".".to_owned();
            e.append(t.as_str());
            let low = lowercase(e.as_str());
            let ghost before = out@;
            out.push(low);
            assert(string_views(out@) =~= string_views(before).push(lower_of("."@ + t@)));
        }
        i = i + 1;
    }
    out
}

/// Why a directory is left out of a text scan, or that it is scanned.
#[derive(Clone, Copy, Debug, PartialEq, Eq, Structural)]
pub enum DirVerdict {
    /// A `.git` directory, while `.git` directories are not scanned.
    DotGit,
    /// A `target` directory, while those are skipped.
    Target,
    /// A path with a component that starts with a dot, while those are
    /// skipped.
    DotDir,
    /// A symbolic link, while linked directories are skipped.
    Link,
    /// The directory is scanned.
    Scan,
}

/// The verdict on a directory, by the first rule that applies, in order:
/// `.git`, `target`, dot component, link.
pub open spec fn dir_verdict(path: Seq<char>, is_link: bool, o: &Options) -> DirVerdict {
    if !o.scan_dot_git && ends_with(path, "/.git"@) {
        DirVerdict::DotGit
    } else if o.skip_target_dir && ends_with(path, "/target"@) {
        DirVerdict::Target
    } else if o.skip_dot_dir && contains(path, "/."@) {
        DirVerdict::DotDir
    } else if o.skip_link_dir && is_link {
        DirVerdict::Link
    } else {
        DirVerdict::Scan
    }
}

/// A file is read when its lower-cased path ends with one of the allowed
/// extensions (where any are given), and its path holds the file-name
/// filter (where one is given).
pub open spec fn file_admitted(path: Seq<char>, o: &Options) -> bool {
    let exts = ext_list(o.file_ext@);
    &&& (exts.len() == 0 || exists|i: int|
        0 <= i < exts.len() && #[trigger] ends_with(lower_of(path), exts[i]))
    &&& (o.filter_file_name@.len() == 0 || contains(path, o.filter_file_name@))
}

/// A file whose lower-cased path ends with none of the allowed extensions,
/// where some are given, is not admitted, and so never read.
pub proof fn lemma_excluded_extension(path: Seq<char>, o: &Options)
    requires
        ext_list(o.file_ext@).len() > 0,
        forall|i: int|
            0 <= i < ext_list(o.file_ext@).len() ==> !ends_with(
                lower_of(path),
                #[trigger] ext_list(o.file_ext@)[i],
            ),
    ensures
        !file_admitted(path, o),
{
}

/// With no extension list and no file-name filter, as by default, every
/// file is admitted.
pub proof fn lemma_no_filter_admits(path: Seq<char>, o: &Options)
    requires
        o.file_ext@.len() == 0,
        o.filter_file_name@.len() == 0,
    ensures
        file_admitted(path, o),
{
}

/// Why a text scan cannot start.
pub enum ScanError {
    /// The search text is empty.
    EmptySearchText,
}

/// The counts of a text scan.
pub struct TextCounts {
    pub total_dirs: nat,
    pub scanned_dirs: nat,
    pub total_files: nat,
    pub scanned_files: nat,
    pub matched_files: nat,
}

impl TextCounts {
    /// No more directories scanned than met, no more files scanned than
    /// met, and no more files matched than scanned.
    pub open spec fn ordered(self) -> bool {
        &&& self.scanned_dirs <= self.total_dirs
        &&& self.scanned_files <= self.total_files
        &&& self.matched_files <= self.scanned_files
    }
}

/// The decisions and counts of a search of text files for a literal text.
///
/// Every directory met is counted, and those that pass the directory rules
/// are counted as scanned; every file met is counted, those that are read
/// are counted as scanned, and those with a matching line as matched.
pub struct TextScan {
    options: Options,
    exts: Vec<String>,
    total_dirs: CountCell,
    scanned_dirs: CountCell,
    total_files: CountCell,
    scanned_files: CountCell,
    matched_files: CountCell,
}

impl View for TextScan {
    type V = TextCounts;

    closed spec fn view(&self) -> TextCounts {
        TextCounts {
            total_dirs: self.total_dirs@,
            scanned_dirs: self.scanned_dirs@,
            total_files: self.total_files@,
            scanned_files: self.scanned_files@,
            matched_files: self.matched_files@,
        }
    }
}

impl TextScan {
    /// The settings of the scan.
    pub closed spec fn spec_options(&self) -> Options {
        self.options
    }

    pub closed spec fn wf(&self) -> bool {
        &&& string_views(self.exts@) == ext_list(self.options.file_ext@)
        &&& self@.ordered()
    }

    /// A scan with the given settings and every count at zero; refused
    /// where the search text is empty.
    pub fn new(options: Options) -> (r: Result<TextScan, ScanError>)
        ensures
            (r is Err) <==> options.search_text@.len() == 0,
            r matches Ok(s) ==> s.wf() && s.spec_options() == options && s@ == (TextCounts {
                total_dirs: 0,
                scanned_dirs: 0,
                total_files: 0,
                scanned_files: 0,
                matched_files: 0,
            }),
    {
        if options.search_text.as_str().is_empty() {
            return Err(ScanError::EmptySearchText);
        }
        let exts = parse_file_exts(options.file_ext.as_str());
        Ok(TextScan {
            options,
            exts,
            total_dirs: CountCell::new(),
            scanned_dirs: CountCell::new(),
            total_files: CountCell::new(),
            scanned_files: CountCell::new(),
            matched_files: CountCell::new(),
        })
    }

    /// The settings of the scan.
    pub fn options(&self) -> (r: &Options)
        ensures
            *r == self.spec_options(),
    {
        &self.options
    }

    /// The counts so far, in the order: directories met, directories
    /// scanned, files met, files scanned, files matched.
    pub fn counts(&self) -> (r: (u64, u64, u64, u64, u64))
        ensures
            r.0 as nat == self@.total_dirs,
            r.1 as nat == self@.scanned_dirs,
            r.2 as nat == self@.total_files,
            r.3 as nat == self@.scanned_files,
            r.4 as nat == self@.matched_files,
    {
        (
            self.total_dirs.get(),
            self.scanned_dirs.get(),
            self.total_files.get(),
            self.scanned_files.get(),
            self.matched_files.get(),
        )
    }

    /// Meets a directory: counts it, and counts it as scanned where the
    /// verdict lets it be scanned.
    pub fn enter_dir(&mut self, path: &str, is_link: bool) -> (r: DirVerdict)
        requires
            old(self).wf(),
            old(self)@.total_dirs < u64::MAX,
        ensures
            r == dir_verdict(path@, is_link, &old(self).spec_options()),
            final(self).wf(),
            final(self)@.ordered(),
            final(self).spec_options() == old(self).spec_options(),
            final(self)@ == (TextCounts {
                total_dirs: old(self)@.total_dirs + 1,
                scanned_dirs: old(self)@.scanned_dirs + if r == DirVerdict::Scan {
                    1nat
                } else {
                    0nat
                },
                ..old(self)@
            }),
    {
        self.total_dirs.add_one();
        let chars = chars_of(path);
        let o = &self.options;
        let verdict = if !o.scan_dot_git && ends_with_chars(&chars, &chars_of("/.git")) {
            DirVerdict::DotGit
        } else if o.skip_target_dir && ends_with_chars(&chars, &chars_of("/target")) {
            DirVerdict::Target
        } else if o.skip_dot_dir && contains_chars(&chars, &chars_of("/.")) {
            DirVerdict::DotDir
        } else if o.skip_link_dir && is_link {
            DirVerdict::Link
        } else {
            DirVerdict::Scan
        };
        if verdict == DirVerdict::Scan {
            self.scanned_dirs.add_one();
        }
        verdict
    }

    /// Meets a directory whose path cannot be read as text: counts it, and
    /// leaves it out.
    pub fn pass_dir(&mut self)
        requires
            old(self).wf(),
            old(self)@.total_dirs < u64::MAX,
        ensures
            final(self).wf(),
            final(self)@.ordered(),
            final(self).spec_options() == old(self).spec_options(),
            final(self)@ == (TextCounts { total_dirs: old(self)@.total_dirs + 1, ..old(self)@ }),
    {
        self.total_dirs.add_one();
    }

    /// Meets a file: counts it, and tells whether it is to be read.
    pub fn admit_file(&mut self, path: &str) -> (r: bool)
        requires
            old(self).wf(),
            old(self)@.total_files < u64::MAX,
        ensures
            r == file_admitted(path@, &old(self).spec_options()),
            final(self).wf(),
            final(self)@.ordered(),
            final(self).spec_options() == old(self).spec_options(),
            final(self)@ == (TextCounts { total_files: old(self)@.total_files + 1, ..old(self)@ }),
    {
        self.total_files.add_one();
        let ghost o = self.options;
        if self.exts.len() > 0 {
            let low = lowercase(path);
            let low_chars = chars_of(low.as_str());
            let mut found = false;
            let mut i: usize = 0;
            while i < self.exts.len()
                invariant
                    string_views(self.exts@) == ext_list(o.file_ext@),
                    low_chars@ == lower_of(path@),
                    i <= self.exts@.len(),
                    found <==> exists|k: int|
                        0 <= k < i && #[trigger] ends_with(
                            lower_of(path@),
                            ext_list(o.file_ext@)[k],
                        ),
                decreases self.exts@.len() - i,
            {
                assert(self.exts@[i as int]@ == ext_list(o.file_ext@)[i as int]);
                if ends_with_chars(&low_chars, &chars_of(self.exts[i].as_str())) {
                    found = true;
                }
                i = i + 1;
            }
            if !found {
                return false;
            }
        }
        if self.options.filter_file_name.as_str().is_empty() {
            true
        } else {
            contains_str(path, self.options.filter_file_name.as_str())
        }
    }

    /// Whether a file of `len` bytes is small enough to be read.
    pub fn admits_size(&self, len: u64) -> (r: bool)
        ensures
            r == (len < self.spec_options().parsed_large_text_file_size),
    {
        len < self.options.parsed_large_text_file_size
    }

    /// Scans the content of a file that was admitted and read, while fewer
    /// files have been scanned than met: counts the file as
    /// scanned, and as matched where a line of it matches, and returns the
    /// matching lines.
    pub fn scan_content(&mut self, content: &str) -> (r: Vec<MatchLine>)
        requires
            old(self).wf(),
            old(self)@.scanned_files < old(self)@.total_files,
        ensures
            match_line_views(r@) == matched_lines(content@, &old(self).spec_options()),
            final(self).wf(),
            final(self)@.ordered(),
            final(self).spec_options() == old(self).spec_options(),
            final(self)@ == (TextCounts {
                scanned_files: old(self)@.scanned_files + 1,
                matched_files: old(self)@.matched_files + if r@.len() > 0 {
                    1nat
                } else {
                    0nat
                },
                ..old(self)@
            }),
    {
        proof {
            self.total_files.lemma_fits();
        }
        self.scanned_files.add_one();
        let lines = match_lines(content, &self.options);
        if lines.len() > 0 {
            self.matched_files.add_one();
        }
        lines
    }
}

} // verus!
