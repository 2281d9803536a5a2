//! The application state: the pending files, the target fragment, the active
//! device and the output log, with the one way in which each trigger of the
//! window changes them.

use crate::bridge::{BridgeReply, ReplyView};
use crate::device::{refresh_device, resolved_device, DeviceIdentifier, DeviceView};
use crate::log::{LogEntry, LogEntryView};
use crate::transfer::{
    law_replies_meet_requests_in_order, outcome_of, request_for, send_files, Batch, BatchView,
    OutcomeView, PendingFile,
};
use vstd::prelude::*;

verus! {

/// One item of a drop event, as the window reports it.
#[derive(Debug, PartialEq, Eq)]
pub enum DroppedItem {
    /// A path that is no directory.
    File(String),
    /// A path that is a directory.
    Directory(String),
    /// An item that came without a path.
    Pathless,
}

/// The mathematical value of a `DroppedItem`.
pub enum DroppedView {
    File(Seq<char>),
    Directory(Seq<char>),
    Pathless,
}

impl View for DroppedItem {
    type V = DroppedView;

    open spec fn view(&self) -> DroppedView {
        match self {
            DroppedItem::File(path) => DroppedView::File(path@),
            DroppedItem::Directory(path) => DroppedView::Directory(path@),
            DroppedItem::Pathless => DroppedView::Pathless,
        }
    }
}

impl DeepView for DroppedItem {
    type V = DroppedView;

    open spec fn deep_view(&self) -> DroppedView {
        self@
    }
}

/// The files among the items of a drop event, in order.
pub open spec fn dropped_files(dropped: Seq<DroppedView>) -> Seq<DroppedView> {
    dropped.filter(|item: DroppedView| item is File)
}

/// The directories among the items of a drop event, in order.
pub open spec fn dropped_directories(dropped: Seq<DroppedView>) -> Seq<DroppedView> {
    dropped.filter(|item: DroppedView| item is Directory)
}

/// The paths that a drop event stages: those of its files, in order.
pub open spec fn staged_paths(dropped: Seq<DroppedView>) -> Seq<Seq<char>> {
    dropped_files(dropped).map_values(|item: DroppedView| item->File_0)
}

/// The log entries that a drop event writes: one for each of its
/// directories, in order.
pub open spec fn rejected_drops(dropped: Seq<DroppedView>) -> Seq<LogEntryView> {
    dropped_directories(dropped).map_values(
        |item: DroppedView| LogEntryView::InvalidDrop(item->Directory_0),
    )
}

/// The log entries for the outcomes of a batch, in order.
pub open spec fn transfer_entries(outcomes: Seq<OutcomeView>) -> Seq<LogEntryView> {
    outcomes.map_values(|outcome: OutcomeView| LogEntryView::Transfer(outcome))
}

/// The state of the application.
pub struct AdbPush {
    pending: Vec<PendingFile>,
    target_fragment: String,
    device: DeviceIdentifier,
    log: Vec<LogEntry>,
}

/// The mathematical value of an `AdbPush`.
pub struct AppView {
    pub pending: Seq<Seq<char>>,
    pub target_fragment: Seq<char>,
    pub device: DeviceView,
    pub log: Seq<LogEntryView>,
}

impl View for AdbPush {
    type V = AppView;

    closed spec fn view(&self) -> AppView {
        AppView {
            pending: self.pending.deep_view(),
            target_fragment: self.target_fragment@,
            device: self.device@,
            log: self.log.deep_view(),
        }
    }
}

impl AppView {
    /// The state at start-up, once the device was resolved.
    pub open spec fn initial(device: DeviceView) -> AppView {
        AppView { pending: Seq::empty(), target_fragment: Seq::empty(), device, log: Seq::empty() }
    }

    /// The state after a refresh: the last refresh wins.
    pub open spec fn refresh_device(self, reply: ReplyView) -> AppView {
        AppView { device: resolved_device(reply), ..self }
    }

    /// The state after the target fragment was edited.
    pub open spec fn set_target_fragment(self, target_fragment: Seq<char>) -> AppView {
        AppView { target_fragment, ..self }
    }

    /// The state after a drop event: files are staged behind those already
    /// pending, each directory is reported in the log, and an item without a
    /// path leaves no trace.
    pub open spec fn drop_files(self, dropped: Seq<DroppedView>) -> AppView {
        AppView {
            pending: self.pending + staged_paths(dropped),
            log: self.log + rejected_drops(dropped),
            ..self
        }
    }

    /// Why a send cannot start in this state, if it cannot: nothing is
    /// staged, or, with something staged, no valid device is connected.
    pub open spec fn send_refusal(self) -> Option<LogEntryView> {
        if self.pending.len() == 0 {
            Some(LogEntryView::NoFilesToSend)
        } else if !self.device.permits_sending() {
            Some(LogEntryView::NoValidDevice)
        } else {
            None
        }
    }

    /// The batch that a send starts in this state, if it starts one.
    pub open spec fn batch(self) -> Option<BatchView> {
        if self.send_refusal() is None {
            Some(BatchView::planned(self.pending, self.target_fragment))
        } else {
            None
        }
    }

    /// The state after a send was asked for: a refusal is written to the
    /// log, and nothing else changes.
    pub open spec fn send(self) -> AppView {
        match self.send_refusal() {
            Some(entry) => AppView { log: self.log.push(entry), ..self },
            None => self,
        }
    }

    /// The state after a batch ended: its outcomes are written to the log in
    /// order, and nothing is pending any more, whatever the outcomes were.
    pub open spec fn complete(self, batch: BatchView) -> AppView {
        AppView {
            pending: Seq::empty(),
            log: self.log + transfer_entries(batch.outcomes),
            ..self
        }
    }

    /// The state after the list of dropped files was cleared.
    pub open spec fn clear_files(self) -> AppView {
        AppView { pending: Seq::empty(), ..self }
    }

    /// The state after the output log was cleared.
    pub open spec fn clear_output(self) -> AppView {
        AppView { log: Seq::empty(), ..self }
    }
}

/// A drop event that ends with `item` stages and reports what the event
/// without it does, and then what `item` adds.
pub proof fn lemma_drop_one_more(dropped: Seq<DroppedView>, item: DroppedView)
    ensures
        staged_paths(dropped.push(item)) == match item {
            DroppedView::File(path) => staged_paths(dropped).push(path),
            _ => staged_paths(dropped),
        },
        rejected_drops(dropped.push(item)) == match item {
            DroppedView::Directory(path) => rejected_drops(dropped).push(
                LogEntryView::InvalidDrop(path),
            ),
            _ => rejected_drops(dropped),
        },
{
    let all = dropped.push(item);
    assert(all.drop_last() == dropped);
    assert(all.last() == item);
    reveal_with_fuel(Seq::filter, 2);
    assert(dropped_files(all) == if item is File {
        dropped_files(dropped).push(item)
    } else {
        dropped_files(dropped)
    });
    assert(dropped_directories(all) == if item is Directory {
        dropped_directories(dropped).push(item)
    } else {
        dropped_directories(dropped)
    });
}

impl AdbPush {
    /// The state at start-up: nothing pending, an empty target fragment, an
    /// empty log, and the device that the first refresh resolved.
    pub fn new(device: DeviceIdentifier) -> (state: Self)
        ensures
            state@ == AppView::initial(device@),
    {
        let state = AdbPush {
            pending: Vec::new(),
            target_fragment: String::new(),
            device,
            log: Vec::new(),
        };
        assert(state.pending.deep_view() == Seq::<Seq<char>>::empty());
        assert(state.log.deep_view() == Seq::<LogEntryView>::empty());
        state
    }

    /// The files staged for the next batch, in the order of their drops.
    pub fn pending(&self) -> (pending: &Vec<PendingFile>)
        ensures
            pending.deep_view() == self@.pending,
    {
        &self.pending
    }

    /// The target fragment as last edited.
    pub fn target_fragment(&self) -> (target_fragment: &str)
        ensures
            target_fragment@ == self@.target_fragment,
    {
        self.target_fragment.as_str()
    }

    /// The active device.
    pub fn device(&self) -> (device: &DeviceIdentifier)
        ensures
            device@ == self@.device,
    {
        &self.device
    }

    /// The output log, oldest entry first.
    pub fn log(&self) -> (log: &Vec<LogEntry>)
        ensures
            log.deep_view() == self@.log,
    {
        &self.log
    }

    /// Takes the reply to a listing request and makes the device it names
    /// the active one.
    pub fn refresh_device(&mut self, reply: &BridgeReply)
        ensures
            final(self)@ == old(self)@.refresh_device(reply@),
    {
        self.device = refresh_device(reply);
    }

    /// Takes the target fragment as the user typed it. Nothing in it is
    /// checked or changed.
    pub fn set_target_fragment(&mut self, target_fragment: String)
        ensures
            final(self)@ == old(self)@.set_target_fragment(target_fragment@),
    {
        self.target_fragment = target_fragment;
    }

    /// Takes the items of one drop event.
    pub fn drop_files(&mut self, dropped: Vec<DroppedItem>)
        ensures
            final(self)@ == old(self)@.drop_files(dropped.deep_view()),
    {
        let ghost items = dropped.deep_view();
        let mut i: usize = 0;
        proof {
            assert(items.take(0) == Seq::<DroppedView>::empty());
            assert(staged_paths(Seq::empty()) == Seq::<Seq<char>>::empty());
            assert(rejected_drops(Seq::empty()) == Seq::<LogEntryView>::empty());
            assert(self@.pending + Seq::<Seq<char>>::empty() == self@.pending);
            assert(self@.log + Seq::<LogEntryView>::empty() == self@.log);
        }
        while i < dropped.len()
            invariant
                i <= dropped.len(),
                items == dropped.deep_view(),
                self@ == old(self)@.drop_files(items.take(i as int)),
            decreases dropped.len() - i,
        {
            proof {
                lemma_drop_one_more(items.take(i as int), items[i as int]);
                assert(items.take(i + 1) == items.take(i as int).push(items[i as int]));
            }
            let ghost pending_before = self.pending.deep_view();
            let ghost log_before = self.log.deep_view();
            match &dropped[i] {
                DroppedItem::File(path) => {
                    self.pending.push(PendingFile { path: path.clone() });
                    assert(self.pending.deep_view() == pending_before.push(path@));
                },
                DroppedItem::Directory(path) => {
                    self.log.push(LogEntry::InvalidDrop(path.clone()));
                    assert(self.log.deep_view() == log_before.push(
                        LogEntryView::InvalidDrop(path@),
                    ));
                },
                DroppedItem::Pathless => {},
            }
            i = i + 1;
        }
        assert(items.take(dropped.len() as int) == items);
    }

    /// Takes the send trigger. Where something is staged and the device
    /// permits it, the batch for the pending files comes back, and the state
    /// is as before. Otherwise the refusal is written to the log and no batch
    /// comes back.
    pub fn send(&mut self) -> (batch: Option<Batch>)
        ensures
            final(self)@ == old(self)@.send(),
            batch is Some <==> old(self)@.pending.len() > 0 && old(self)@.device.permits_sending(),
            match batch {
                Some(batch) => old(self)@.batch() == Some(batch@),
                None => old(self)@.batch() is None,
            },
    {
        let ghost log_before = self.log.deep_view();
        if self.pending.len() == 0 {
            self.log.push(LogEntry::NoFilesToSend);
            assert(self.log.deep_view() == log_before.push(LogEntryView::NoFilesToSend));
            None
        } else if !self.device.permits_sending() {
            self.log.push(LogEntry::NoValidDevice);
            assert(self.log.deep_view() == log_before.push(LogEntryView::NoValidDevice));
            None
        } else {
            Some(send_files(&self.pending, self.target_fragment.as_str()))
        }
    }

    /// Takes a batch that ended: writes its outcomes to the log and clears
    /// the pending files.
    pub fn complete(&mut self, batch: Batch)
        ensures
            final(self)@ == old(self)@.complete(batch@),
    {
        let outcomes = batch.into_outcomes();
        let ghost all = outcomes.deep_view();
        let ghost log_before = self.log.deep_view();
        assert(transfer_entries(all.take(0)) == Seq::<LogEntryView>::empty());
        assert(log_before + Seq::<LogEntryView>::empty() == log_before);
        for outcome in it: outcomes
            invariant
                it.seq().len() == all.len(),
                forall|i: int| 0 <= i < all.len() ==> (#[trigger] it.seq()[i])@ == all[i],
                self.log.deep_view() == log_before + transfer_entries(all.take(it.index())),
                self.pending == old(self).pending,
                self.target_fragment == old(self).target_fragment,
                self.device == old(self).device,
        {
            let ghost so_far = self.log.deep_view();
            let ghost k = it.index();
            self.log.push(LogEntry::Transfer(outcome));
            proof {
                assert(self.log.deep_view() == so_far.push(LogEntryView::Transfer(all[k])));
                assert(all.take(k + 1) == all.take(k).push(all[k]));
                assert(transfer_entries(all.take(k + 1)) == transfer_entries(all.take(k)).push(
                    LogEntryView::Transfer(all[k]),
                ));
            }
        }
        assert(all.take(all.len() as int) == all);
        self.pending.clear();
        assert(self.pending.deep_view() == Seq::<Seq<char>>::empty());
    }

    /// Clears the list of dropped files.
    pub fn clear_files(&mut self)
        ensures
            final(self)@ == old(self)@.clear_files(),
    {
        self.pending.clear();
        assert(self.pending.deep_view() == Seq::<Seq<char>>::empty());
    }

    /// Clears the output log.
    pub fn clear_output(&mut self)
        ensures
            final(self)@ == old(self)@.clear_output(),
    {
        self.log.clear();
        assert(self.log.deep_view() == Seq::<LogEntryView>::empty());
    }
}

/// Whatever one drop event holds and whatever the state before it: what was
/// pending and what was logged stays in place; as many entries are written
/// as directories were dropped, each reports a dropped directory, and each
/// dropped directory is reported; and every path staged is that of a dropped
/// file, so that no directory is ever staged.
pub proof fn law_directories_are_reported_never_staged(state: AppView, dropped: Seq<DroppedView>)
    ensures
        ({
            let after = state.drop_files(dropped);
            let staged = after.pending.skip(state.pending.len() as int);
            let reported = after.log.skip(state.log.len() as int);
            &&& after.pending.take(state.pending.len() as int) == state.pending
            &&& after.log.take(state.log.len() as int) == state.log
            &&& after.device == state.device
            &&& after.target_fragment == state.target_fragment
            &&& staged.len() == dropped_files(dropped).len()
            &&& reported.len() == dropped_directories(dropped).len()
            &&& forall|k: int|
                0 <= k < staged.len() ==> dropped.contains(DroppedView::File(#[trigger] staged[k]))
            &&& forall|k: int|
                0 <= k < reported.len() ==> (#[trigger] reported[k]) is InvalidDrop
                    && dropped.contains(DroppedView::Directory(reported[k]->InvalidDrop_0))
            &&& forall|j: int|
                0 <= j < dropped.len() && (#[trigger] dropped[j]) is Directory
                    ==> reported.contains(LogEntryView::InvalidDrop(dropped[j]->Directory_0))
        }),
{
    let after = state.drop_files(dropped);
    let staged = after.pending.skip(state.pending.len() as int);
    let reported = after.log.skip(state.log.len() as int);
    let files = dropped_files(dropped);
    let directories = dropped_directories(dropped);
    assert(staged == staged_paths(dropped));
    assert(reported == rejected_drops(dropped));
    assert(after.pending.take(state.pending.len() as int) == state.pending);
    assert(after.log.take(state.log.len() as int) == state.log);
    broadcast use {vstd::seq_lib::group_filter_ensures, Seq::lemma_filter_contains_rev};
    assert forall|k: int| 0 <= k < staged.len() implies dropped.contains(
        DroppedView::File(#[trigger] staged[k]),
    ) by {
        assert(files[k] is File);
        assert(files.contains(files[k]));
        assert(dropped.contains(files[k]));
    }
    assert forall|k: int| 0 <= k < reported.len() implies (#[trigger] reported[k]) is InvalidDrop
        && dropped.contains(DroppedView::Directory(reported[k]->InvalidDrop_0)) by {
        assert(directories[k] is Directory);
        assert(directories.contains(directories[k]));
        assert(dropped.contains(directories[k]));
    }
    assert forall|j: int|
        0 <= j < dropped.len() && (#[trigger] dropped[j]) is Directory implies reported.contains(
        LogEntryView::InvalidDrop(dropped[j]->Directory_0),
    ) by {
        assert(directories.contains(dropped[j]));
        let k = choose|k: int| 0 <= k < directories.len() && directories[k] == dropped[j];
        assert(reported[k] == LogEntryView::InvalidDrop(dropped[j]->Directory_0));
    }
}

/// Two drop events, one after the other, leave what one event with the
/// items of both leaves.
pub proof fn law_drop_events_add_up(
    state: AppView,
    first: Seq<DroppedView>,
    second: Seq<DroppedView>,
)
    ensures
        state.drop_files(first).drop_files(second) == state.drop_files(first + second),
{
    broadcast use Seq::filter_distributes_over_add;
    assert(dropped_files(first + second) == dropped_files(first) + dropped_files(second));
    assert(dropped_directories(first + second) == dropped_directories(first)
        + dropped_directories(second));
    assert(staged_paths(first + second) == staged_paths(first) + staged_paths(second));
    assert(rejected_drops(first + second) == rejected_drops(first) + rejected_drops(second));
    assert(state.pending + staged_paths(first) + staged_paths(second) == state.pending + (
        staged_paths(first) + staged_paths(second)));
    assert(state.log + rejected_drops(first) + rejected_drops(second) == state.log + (
        rejected_drops(first) + rejected_drops(second)));
}

/// Where something is staged and the device permits sending, a send starts
/// a batch, and once the bridge has answered every request of it, one reply
/// per pending file, the batch is done: the log holds one more entry per
/// pending file, in the files' order, each the outcome of the push of that
/// file to the destination that the target fragment gives, with the reply
/// that came for it; nothing is pending any more; and the device and the
/// target fragment are as before.
pub proof fn law_send_attempts_every_file_in_order(state: AppView, replies: Seq<ReplyView>)
    requires
        state.pending.len() > 0,
        state.device.permits_sending(),
        replies.len() == state.pending.len(),
    ensures
        state.batch() is Some,
        state.send() == state,
        ({
            let done = state.batch().unwrap().record_all(replies);
            let after = state.send().complete(done);
            &&& done.next_push() is None
            &&& done.outcomes.len() == state.pending.len()
            &&& after.pending.len() == 0
            &&& after.device == state.device
            &&& after.target_fragment == state.target_fragment
            &&& after.log == state.log + Seq::new(
                state.pending.len(),
                |i: int|
                    LogEntryView::Transfer(
                        outcome_of(
                            request_for(state.pending[i], state.target_fragment),
                            replies[i],
                        ),
                    ),
            )
        }),
{
    let batch = state.batch().unwrap();
    law_replies_meet_requests_in_order(batch, replies);
    let done = batch.record_all(replies);
    let after = state.send().complete(done);
    let entries = Seq::new(
        state.pending.len(),
        |i: int|
            LogEntryView::Transfer(
                outcome_of(request_for(state.pending[i], state.target_fragment), replies[i]),
            ),
    );
    assert(transfer_entries(done.outcomes) == entries);
}

/// While a batch is in flight, with fewer replies in than files pending, the
/// next request is the push of the first file that has no outcome yet: no
/// file is passed over, whatever the replies before it were.
pub proof fn law_batch_never_stops_early(state: AppView, replies: Seq<ReplyView>)
    requires
        state.batch() is Some,
        replies.len() < state.pending.len(),
    ensures
        state.batch().unwrap().record_all(replies).next_push() == Some(
            request_for(state.pending[replies.len() as int], state.target_fragment),
        ),
{
    law_replies_meet_requests_in_order(state.batch().unwrap(), replies);
}

/// With nothing pending, a send starts no batch: it writes one entry, which
/// says that there is nothing to send, and changes nothing else. The device
/// is not looked at.
pub proof fn law_send_with_nothing_pending_is_refused(state: AppView)
    requires
        state.pending.len() == 0,
    ensures
        state.batch() is None,
        state.send().log == state.log.push(LogEntryView::NoFilesToSend),
        LogEntryView::NoFilesToSend.is_precondition_unmet(),
        state.send().pending == state.pending,
        state.send().device == state.device,
        state.send().target_fragment == state.target_fragment,
{
}

/// Without a valid device, a send starts no batch, whatever is pending: it
/// writes one entry, which reports the refusal (the missing device, where
/// something is pending), and changes nothing else.
pub proof fn law_send_without_valid_device_is_refused(state: AppView)
    requires
        state.device is NoValidDevice,
    ensures
        state.batch() is None,
        state.send().log.len() == state.log.len() + 1,
        state.send().log.drop_last() == state.log,
        state.send().log.last().is_precondition_unmet(),
        state.pending.len() > 0 ==> state.send().log.last() == LogEntryView::NoValidDevice,
        state.send().pending == state.pending,
        state.send().device == state.device,
        state.send().target_fragment == state.target_fragment,
{
    let entry = state.send_refusal().unwrap();
    assert(state.log.push(entry).drop_last() == state.log);
}

/// The log only grows until it is cleared: whatever is dropped, whichever
/// reply or fragment comes in, whether a send is refused or a batch ends or
/// the files are cleared, the entries from before stay, in place.
pub proof fn law_log_is_kept_until_cleared(
    state: AppView,
    dropped: Seq<DroppedView>,
    reply: ReplyView,
    target_fragment: Seq<char>,
    batch: BatchView,
)
    ensures
        state.log.is_prefix_of(state.drop_files(dropped).log),
        state.log.is_prefix_of(state.refresh_device(reply).log),
        state.log.is_prefix_of(state.set_target_fragment(target_fragment).log),
        state.log.is_prefix_of(state.send().log),
        state.log.is_prefix_of(state.complete(batch).log),
        state.log.is_prefix_of(state.clear_files().log),
{
}

/// Clearing the output log a second time changes nothing, and neither does
/// clearing the dropped files a second time.
pub proof fn law_clearing_twice_is_clearing_once(state: AppView)
    ensures
        state.clear_output().clear_output() == state.clear_output(),
        state.clear_files().clear_files() == state.clear_files(),
{
}

} // verus!
