//! The device registry: which device, if any, the bridge's listing names.

use crate::bridge::{BridgeReply, ReplyView};
use crate::text::{
    after_first_line, chars_of, first_line, first_token, in_run, is_whitespace_char,
    lemma_run_len_bounds, lemma_run_len_is, run_end, run_len, Run,
};
use vstd::prelude::*;
use vstd::string::StrSliceExecFns;

verus! {

/// The device that transfers go to, or the reason why there is none.
#[derive(Debug, PartialEq, Eq)]
pub enum DeviceIdentifier {
    /// The identifier of the first device that the bridge listed.
    Attached(String),
    /// The listing held nothing after its header line.
    NoDevicesFound,
    /// The first entry of the listing was blank.
    NoValidDevice,
    /// The bridge could not be started.
    BridgeUnavailable,
}

/// The mathematical value of a `DeviceIdentifier`.
pub enum DeviceView {
    Attached(Seq<char>),
    NoDevicesFound,
    NoValidDevice,
    BridgeUnavailable,
}

impl View for DeviceIdentifier {
    type V = DeviceView;

    open spec fn view(&self) -> DeviceView {
        match self {
            DeviceIdentifier::Attached(id) => DeviceView::Attached(id@),
            DeviceIdentifier::NoDevicesFound => DeviceView::NoDevicesFound,
            DeviceIdentifier::NoValidDevice => DeviceView::NoValidDevice,
            DeviceIdentifier::BridgeUnavailable => DeviceView::BridgeUnavailable,
        }
    }
}

impl Clone for DeviceIdentifier {
    fn clone(&self) -> (copy: Self)
        ensures
            copy@ == self@,
    {
        match self {
            DeviceIdentifier::Attached(id) => DeviceIdentifier::Attached(id.clone()),
            DeviceIdentifier::NoDevicesFound => DeviceIdentifier::NoDevicesFound,
            DeviceIdentifier::NoValidDevice => DeviceIdentifier::NoValidDevice,
            DeviceIdentifier::BridgeUnavailable => DeviceIdentifier::BridgeUnavailable,
        }
    }
}

impl DeviceView {
    /// Whether a batch may start with this device: anything but a blank first
    /// entry.
    pub open spec fn permits_sending(self) -> bool {
        !(self is NoValidDevice)
    }

    /// The text that stands for this identifier on screen.
    pub open spec fn label(self) -> Seq<char> {
        match self {
            DeviceView::Attached(id) => id,
            DeviceView::NoDevicesFound => "No devices found"@,
            DeviceView::NoValidDevice => "No valid device"@,
            DeviceView::BridgeUnavailable => "Device bridge unavailable"@,
        }
    }
}

/// The device that a listing names. The first line is a header. Where nothing
/// follows it, no device is attached. Otherwise the second line describes the
/// first device, and its first token is the identifier; a blank second line
/// names no valid device. Further lines are not looked at.
pub open spec fn listed_device(listing: Seq<char>) -> DeviceView {
    let entries = after_first_line(listing);
    let token = first_token(first_line(entries));
    if entries.len() == 0 {
        DeviceView::NoDevicesFound
    } else if token.len() == 0 {
        DeviceView::NoValidDevice
    } else {
        DeviceView::Attached(token)
    }
}

/// The device that a reply to the listing request names: the bridge is
/// unavailable where it could not be started, and else what it printed decides.
pub open spec fn resolved_device(reply: ReplyView) -> DeviceView {
    match reply {
        ReplyView::Completed(listing) => listed_device(listing),
        ReplyView::LaunchFailed(_) => DeviceView::BridgeUnavailable,
    }
}

/// Reads the first device out of the text that the bridge printed for its
/// listing request.
pub fn device_from_listing(listing: &str) -> (device: DeviceIdentifier)
    ensures
        device@ == listed_device(listing@),
{
    let chars = chars_of(listing);
    let n = chars.len();
    let header_end = run_end(&chars, 0, n, Run::Line);
    assert(chars@.subrange(0, n as int) == listing@);
    if header_end >= n || n - header_end <= 1 {
        return DeviceIdentifier::NoDevicesFound;
    }
    let entry_start = header_end + 1;
    let entry_end = run_end(&chars, entry_start, n, Run::Line);
    let token_start = run_end(&chars, entry_start, entry_end, Run::Blank);
    let token_end = run_end(&chars, token_start, entry_end, Run::Token);
    proof {
        let entries = after_first_line(listing@);
        assert(entries == chars@.subrange(entry_start as int, n as int));
        let entry = first_line(entries);
        assert(entry == chars@.subrange(entry_start as int, entry_end as int));
        let rest = entry.skip(token_start - entry_start);
        assert(rest == chars@.subrange(token_start as int, entry_end as int));
        assert(first_token(entry) == chars@.subrange(token_start as int, token_end as int));
    }
    if token_start == token_end {
        DeviceIdentifier::NoValidDevice
    } else {
        let token = listing.substring_char(token_start, token_end);
        DeviceIdentifier::Attached(token.to_owned())
    }
}

/// Resolves the active device from what the listing request gave.
pub fn refresh_device(reply: &BridgeReply) -> (device: DeviceIdentifier)
    ensures
        device@ == resolved_device(reply@),
{
    match reply {
        BridgeReply::Completed(listing) => device_from_listing(listing.as_str()),
        BridgeReply::LaunchFailed(_) => DeviceIdentifier::BridgeUnavailable,
    }
}

impl DeviceIdentifier {
    /// Whether a batch may start with this device.
    pub fn permits_sending(&self) -> (r: bool)
        ensures
            r == self@.permits_sending(),
    {
        match self {
            DeviceIdentifier::NoValidDevice => false,
            _ => true,
        }
    }

    /// The text that stands for this identifier on screen.
    pub fn label(&self) -> (text: String)
        ensures
            text@ == self@.label(),
    {
        match self {
            DeviceIdentifier::Attached(id) => id.clone(),
            DeviceIdentifier::NoDevicesFound => "No devices found".to_owned(),
            DeviceIdentifier::NoValidDevice => "No valid device".to_owned(),
            DeviceIdentifier::BridgeUnavailable => "Device bridge unavailable".to_owned(),
        }
    }
}

/// An identifier that a listing names is one token: it is not empty and
/// holds no whitespace.
pub proof fn law_identifier_is_one_token(listing: Seq<char>)
    ensures
        listed_device(listing) matches DeviceView::Attached(id) ==> id.len() > 0 && forall|i: int|
            0 <= i < id.len() ==> !is_whitespace_char(#[trigger] id[i]),
        !(listed_device(listing) is BridgeUnavailable),
{
    let entry = first_line(after_first_line(listing));
    let rest = entry.skip(run_len(entry, Run::Blank) as int);
    lemma_run_len_bounds(entry, Run::Blank);
    lemma_run_len_bounds(rest, Run::Token);
}

/// A listing that holds nothing but a header line, with or without the line
/// feed that ends it, names no device.
pub proof fn law_header_alone_lists_no_device(header: Seq<char>)
    requires
        forall|i: int| 0 <= i < header.len() ==> #[trigger] header[i] != '\n',
    ensures
        listed_device(header) == DeviceView::NoDevicesFound,
        listed_device(header.push('\n')) == DeviceView::NoDevicesFound,
{
    lemma_run_len_is(header, Run::Line, header.len() as int);
    lemma_run_len_is(header.push('\n'), Run::Line, header.len() as int);
}

/// Where the line after the header holds a token, with or without blanks
/// before it, the listing names the device with that token as identifier,
/// whatever follows the token on that line and on the lines after it.
pub proof fn law_first_entry_names_the_device(
    header: Seq<char>,
    blanks: Seq<char>,
    token: Seq<char>,
    rest: Seq<char>,
)
    requires
        forall|i: int| 0 <= i < header.len() ==> #[trigger] header[i] != '\n',
        forall|i: int|
            0 <= i < blanks.len() ==> is_whitespace_char(#[trigger] blanks[i]) && blanks[i] != '\n',
        token.len() > 0,
        forall|i: int| 0 <= i < token.len() ==> !is_whitespace_char(#[trigger] token[i]),
        rest.len() > 0 ==> is_whitespace_char(rest[0]),
    ensures
        listed_device(header + seq!['\n'] + blanks + token + rest) == DeviceView::Attached(token),
{
    let listing = header + seq!['\n'] + blanks + token + rest;
    lemma_run_len_is(listing, Run::Line, header.len() as int);
    let entries = after_first_line(listing);
    assert(entries == blanks + token + rest);
    lemma_run_len_bounds(entries, Run::Line);
    let width = run_len(entries, Run::Line) as int;
    let named = blanks.len() + token.len();
    if width < named {
        if width >= blanks.len() {
            assert(entries[width] == token[width - blanks.len()]);
        } else {
            assert(entries[width] == blanks[width]);
        }
    }
    let entry = first_line(entries);
    assert forall|j: int| 0 <= j < blanks.len() implies in_run(#[trigger] entry[j], Run::Blank) by {
        assert(entry[j] == blanks[j]);
    }
    assert(entry[blanks.len() as int] == token[0]);
    lemma_run_len_is(entry, Run::Blank, blanks.len() as int);
    let tail = entry.skip(blanks.len() as int);
    assert forall|j: int| 0 <= j < token.len() implies in_run(#[trigger] tail[j], Run::Token) by {
        assert(tail[j] == token[j]);
    }
    if token.len() < tail.len() {
        assert(tail[token.len() as int] == rest[0]);
    }
    lemma_run_len_is(tail, Run::Token, token.len() as int);
    assert(first_token(entry) == token);
}

/// Where the line after the header is blank (empty, or whitespace only), the
/// listing names no valid device, whatever the lines after it hold.
pub proof fn law_blank_entry_names_no_valid_device(
    header: Seq<char>,
    blanks: Seq<char>,
    rest: Seq<char>,
)
    requires
        forall|i: int| 0 <= i < header.len() ==> #[trigger] header[i] != '\n',
        forall|i: int|
            0 <= i < blanks.len() ==> is_whitespace_char(#[trigger] blanks[i]) && blanks[i] != '\n',
        rest.len() > 0 ==> rest[0] == '\n',
        blanks.len() + rest.len() > 0,
    ensures
        listed_device(header + seq!['\n'] + blanks + rest) == DeviceView::NoValidDevice,
{
    let listing = header + seq!['\n'] + blanks + rest;
    lemma_run_len_is(listing, Run::Line, header.len() as int);
    let entries = after_first_line(listing);
    assert(entries == blanks + rest);
    assert forall|j: int| 0 <= j < blanks.len() implies in_run(
        #[trigger] entries[j],
        Run::Line,
    ) by {
        assert(entries[j] == blanks[j]);
    }
    if blanks.len() < entries.len() {
        assert(entries[blanks.len() as int] == rest[0]);
    }
    lemma_run_len_is(entries, Run::Line, blanks.len() as int);
    let entry = first_line(entries);
    assert(entry == blanks);
    lemma_run_len_is(entry, Run::Blank, blanks.len() as int);
    assert(entry.skip(blanks.len() as int).len() == 0);
}

} // verus!
