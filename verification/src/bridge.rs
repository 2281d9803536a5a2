//! What the device bridge is asked to do, and what comes back from it.
//!
//! The bridge is an outside program. The caller runs it; this module holds
//! the plain values that go to it and come from it.

use vstd::prelude::*;
use vstd::utf8::{decode_utf8, encode_utf8, encode_utf8_decode_utf8, valid_utf8};

verus! {

/// What one run of the device bridge gave.
#[derive(Debug, PartialEq, Eq)]
pub enum BridgeReply {
    /// The bridge started and ended; the text is what it printed on standard
    /// output. Its exit status is not looked at.
    Completed(String),
    /// The bridge could not be started; the text is the reason.
    LaunchFailed(String),
}

/// The mathematical value of a `BridgeReply`.
pub enum ReplyView {
    Completed(Seq<char>),
    LaunchFailed(Seq<char>),
}

impl View for BridgeReply {
    type V = ReplyView;

    open spec fn view(&self) -> ReplyView {
        match self {
            BridgeReply::Completed(text) => ReplyView::Completed(text@),
            BridgeReply::LaunchFailed(reason) => ReplyView::LaunchFailed(reason@),
        }
    }
}

impl Clone for BridgeReply {
    fn clone(&self) -> (copy: Self)
        ensures
            copy@ == self@,
    {
        match self {
            BridgeReply::Completed(text) => BridgeReply::Completed(text.clone()),
            BridgeReply::LaunchFailed(reason) => BridgeReply::LaunchFailed(reason.clone()),
        }
    }
}

/// The text that std's `String::from_utf8_lossy` makes of `bytes`: the text
/// that the bytes encode, with U+FFFD in place of what is no UTF-8.
pub uninterp spec fn utf8_lossy(bytes: Seq<u8>) -> Seq<char>;

/// Calls std's `String::from_utf8_lossy`, and `Cow::into_owned` on what it
/// gives. The result is a function of the bytes alone and has a name; of
/// valid UTF-8 the documentation says that it comes back unchanged, so the
/// text then encodes to the bytes that were given.
#[verifier::external_body]
fn lossy_text(bytes: &[u8]) -> (text: String)
    ensures
        text@ == utf8_lossy(bytes@),
        valid_utf8(bytes@) ==> encode_utf8(text@) == bytes@,
{
    String::from_utf8_lossy(bytes).into_owned()
}

impl BridgeReply {
    /// The reply of a run that the bridge ended, from the bytes that it
    /// wrote to standard output.
    pub fn from_stdout(stdout: &[u8]) -> (reply: BridgeReply)
        ensures
            reply@ == ReplyView::Completed(utf8_lossy(stdout@)),
            valid_utf8(stdout@) ==> reply@ == ReplyView::Completed(decode_utf8(stdout@)),
    {
        let text = lossy_text(stdout);
        proof {
            encode_utf8_decode_utf8(text@);
        }
        BridgeReply::Completed(text)
    }
}

impl DeepView for BridgeReply {
    type V = ReplyView;

    open spec fn deep_view(&self) -> ReplyView {
        self@
    }
}

} // verus!
