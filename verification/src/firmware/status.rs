//! Text of bounded length, as the `heapless` crate keeps it.
use vstd::prelude::*;
use vstd::utf8::encode_utf8;

verus! {

/// The longest status, in bytes.
pub const STATUS_MAX: usize = 64;

/// A `heapless::String` of at most [`STATUS_MAX`] bytes.
#[verifier::external_body]
pub struct StatusText {
    text: heapless::String<STATUS_MAX>,
}

/// The characters of a status.
pub uninterp spec fn status_chars(status: StatusText) -> Seq<char>;

/// `heapless::String::new`: no text.
#[verifier::external_body]
pub(crate) fn empty_status() -> (status: StatusText)
    ensures
        status_chars(status) == Seq::<char>::empty(),
{
    StatusText { text: heapless::String::new() }
}

/// `heapless::String::clear`: no text is left.
#[verifier::external_body]
pub(crate) fn clear_status(status: &mut StatusText)
    ensures
        status_chars(*final(status)) == Seq::<char>::empty(),
{
    status.text.clear()
}

/// `heapless::String::push_str`: appends `s` where the bytes of both fit, and changes nothing
/// where they do not.
#[verifier::external_body]
pub(crate) fn push_status(status: &mut StatusText, s: &str)
    ensures
        status_chars(*final(status)) == (if encode_utf8(status_chars(*old(status))).len()
            + encode_utf8(s@).len() <= STATUS_MAX {
            status_chars(*old(status)) + s@
        } else {
            status_chars(*old(status))
        }),
{
    let _ = status.text.push_str(s);
}

/// `heapless::String::as_str`: the text.
#[verifier::external_body]
pub(crate) fn status_str(status: &StatusText) -> (s: &str)
    ensures
        s@ == status_chars(*status),
{
    status.text.as_str()
}

/// The start of `heapless::Vec`'s life: `new`, then `extend_from_slice`, which takes all of `data`
/// where it fits into `N` bytes and nothing where it does not.
#[verifier::external_body]
pub(crate) fn bounded_copy<const N: usize>(data: &[u8]) -> (copy: Vec<u8>)
    ensures
        copy@ == (if data@.len() <= N {
            data@
        } else {
            Seq::empty()
        }),
{
    let mut copy: heapless::Vec<u8, N> = heapless::Vec::new();
    let _ = copy.extend_from_slice(data);
    copy.to_vec()
}

} // verus!
