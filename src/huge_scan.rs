use vstd::prelude::*;
use vstd::string::*;
use crate::counter::CountCell;
use crate::options::Options;
use crate::size::{display_size, display_size_of};

verus! {

/// The counts of a huge-file scan.
pub struct HugeCounts {
    pub total_files: nat,
    pub huge_files: nat,
    pub huge_bytes: nat,
}

/// A file is huge when its length reaches the threshold.
pub open spec fn is_huge(len: u64, threshold: u64) -> bool {
    len >= threshold
}

/// A file of exactly the threshold length is huge; one byte shorter is not.
pub proof fn lemma_huge_boundary(threshold: u64)
    requires
        threshold > 0,
    ensures
        is_huge(threshold, threshold),
        !is_huge((threshold - 1) as u64, threshold),
{
}

/// The decisions and counts of a search for huge files.
///
/// Every file met is counted; a file whose length is known and reaches the
/// threshold is counted as huge, and its length is added to the huge bytes.
pub struct HugeScan {
    threshold: u64,
    skip_link_dir: bool,
    total_files: CountCell,
    huge_files: CountCell,
    huge_bytes: CountCell,
}

impl View for HugeScan {
    type V = HugeCounts;

    closed spec fn view(&self) -> HugeCounts {
        HugeCounts {
            total_files: self.total_files@,
            huge_files: self.huge_files@,
            huge_bytes: self.huge_bytes@,
        }
    }
}

impl HugeScan {
    /// The length from which a file is huge.
    pub closed spec fn spec_threshold(&self) -> u64 {
        self.threshold
    }

    /// Whether linked directories are left out.
    pub closed spec fn spec_skip_link_dir(&self) -> bool {
        self.skip_link_dir
    }

    /// A scan with the threshold and link setting of `options`, and every
    /// count at zero.
    pub fn new(options: &Options) -> (r: HugeScan)
        ensures
            r.spec_threshold() == options.parsed_huge_file_size,
            r.spec_skip_link_dir() == options.skip_link_dir,
            r@ == (HugeCounts { total_files: 0, huge_files: 0, huge_bytes: 0 }),
    {
        HugeScan {
            threshold: options.parsed_huge_file_size,
            skip_link_dir: options.skip_link_dir,
            total_files: CountCell::new(),
            huge_files: CountCell::new(),
            huge_bytes: CountCell::new(),
        }
    }

    /// The counts so far: files met, huge files, bytes in huge files.
    pub fn counts(&self) -> (r: (u64, u64, u64))
        ensures
            r.0 as nat == self@.total_files,
            r.1 as nat == self@.huge_files,
            r.2 as nat == self@.huge_bytes,
    {
        (self.total_files.get(), self.huge_files.get(), self.huge_bytes.get())
    }

    /// Whether the walk descends into a directory: every one, but a linked
    /// one where linked directories are left out.
    pub fn admits_dir(&self, is_link: bool) -> (r: bool)
        ensures
            r == !(self.spec_skip_link_dir() && is_link),
    {
        !(self.skip_link_dir && is_link)
    }

    /// Meets a file of length `len`, or of unknown length where its
    /// metadata could not be read; tells whether it is huge.
    pub fn visit_file(&mut self, len: Option<u64>) -> (r: bool)
        requires
            old(self)@.total_files < u64::MAX,
            old(self)@.huge_files < u64::MAX,
            len matches Some(n) ==> old(self)@.huge_bytes + n <= u64::MAX,
        ensures
            r == (len matches Some(n) && is_huge(n, old(self).spec_threshold())),
            final(self).spec_threshold() == old(self).spec_threshold(),
            final(self).spec_skip_link_dir() == old(self).spec_skip_link_dir(),
            final(self)@ == (if r {
                HugeCounts {
                    total_files: old(self)@.total_files + 1,
                    huge_files: old(self)@.huge_files + 1,
                    huge_bytes: old(self)@.huge_bytes + len->Some_0 as nat,
                }
            } else {
                HugeCounts { total_files: old(self)@.total_files + 1, ..old(self)@ }
            }),
    {
        self.total_files.add_one();
        match len {
            Some(n) => {
                if n >= self.threshold {
                    self.huge_files.add_one();
                    self.huge_bytes.add(n);
                    true
                } else {
                    false
                }
            },
            None => false,
        }
    }
}

/// The byte count as the size display takes it: lengths past the largest
/// `i64` are shown as that.
pub open spec fn display_count(len: u64) -> i64 {
    if len <= i64::MAX {
        len as i64
    } else {
        i64::MAX
    }
}

/// The report line of a huge file: its path, then its size in brackets.
pub fn huge_file_report(path: &str, len: u64) -> (r: String)
    ensures
        r@ == path@ + " ["@ + display_size_of(display_count(len)) + "]"@,
{
    let n: i64 = if len <= i64::MAX as u64 {
        len as i64
    } else {
        i64::MAX
    };
    let size = display_size(n);
    let mut r = path.to_owned();
    r.append(" [");
    r.append(size.as_str());
    r.append("]");
    r
}

} // verus!
