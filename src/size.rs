use vstd::prelude::*;

verus! {

/// What `rust_util::util_size::parse_size` makes of a size text such as
/// `"100M"` or `"10KB"`: the byte count, or `None` where it refuses the text.
pub uninterp spec fn parsed_size_of(s: Seq<char>) -> Option<i64>;

/// What `rust_util::util_size::get_display_size` renders for a byte count,
/// such as `"1.50MiB"`.
pub uninterp spec fn display_size_of(n: i64) -> Seq<char>;

/// Relies on `rust_util::util_size::parse_size`: the byte count that a size
/// text stands for, which depends on the text alone. Its error is dropped.
#[verifier::external_body]
pub(crate) fn parse_size(s: &str) -> (r: Option<i64>)
    ensures
        r == parsed_size_of(s@),
{
    rust_util::util_size::parse_size(s).ok()
}

/// Relies on `rust_util::util_size::get_display_size`: a human-readable
/// rendering of a byte count, which depends on the count alone.
#[verifier::external_body]
pub(crate) fn display_size(n: i64) -> (r: String)
    ensures
        r@ == display_size_of(n),
{
    rust_util::util_size::get_display_size(n)
}

} // verus!
