//! Input macros: the recorder that captures physical input events with their
//! timing, the names under which macros are stored, the plan by which a stored
//! macro is played back, and the replies that the daemon gives for each step.
use crate::text::{
    concat2, concat3, contains, seq_of_option, last_index, last_index_of, lemma_last_index_bounds, occurs_in, starts_with, str_eq,
    to_string,
};
use crate::types::{ApiReply, RecordedEvent};
use vstd::prelude::*;

verus! {

/// The view of the recorder: whether it records, the name of the macro under
/// way (or last recorded), the events captured so far, and the time in
/// nanoseconds of the last event (or of the start).
pub struct RecorderView {
    pub recording: bool,
    pub name: Seq<char>,
    pub events: Seq<RecordedEvent>,
    pub last_ns: Option<u64>,
}

/// Why the recorder refused a request.
#[derive(Debug, Clone, Copy, PartialEq, Eq, Structural)]
pub enum RecorderError {
    AlreadyRecording,
    NotRecording,
}

/// Nanoseconds in a millisecond.
pub const NANOS_PER_MS: u64 = 1_000_000;

/// The whole milliseconds elapsed since `last` (times in nanoseconds), none
/// before the first event; a clock that went backwards counts as no time.
pub open spec fn delay_since(last: Option<u64>, now_ns: u64) -> u64 {
    match last {
        Some(l) => if now_ns >= l { (((now_ns - l) as u64) / NANOS_PER_MS) as u64 } else { 0 },
        None => 0,
    }
}

/// The recorder after a start request that it accepts.
pub open spec fn started(name: Seq<char>, now_ns: u64) -> RecorderView {
    RecorderView { recording: true, name, events: Seq::empty(), last_ns: Some(now_ns) }
}

/// The recorder after it captured an event while recording.
pub open spec fn captured(v: RecorderView, event_type: u16, code: u16, value: i32, now_ns: u64) -> RecorderView {
    RecorderView {
        recording: v.recording,
        name: v.name,
        events: v.events.push(RecordedEvent { delay_ms: delay_since(v.last_ns, now_ns), event_type, code, value }),
        last_ns: Some(now_ns),
    }
}

/// Records input events into a macro.
pub struct MacroRecorder {
    recording: bool,
    name: String,
    events: Vec<RecordedEvent>,
    last_ns: Option<u64>,
}

impl View for MacroRecorder {
    type V = RecorderView;

    closed spec fn view(&self) -> RecorderView {
        RecorderView { recording: self.recording, name: self.name@, events: self.events@, last_ns: self.last_ns }
    }
}

impl MacroRecorder {
    /// An idle recorder with no macro.
    pub fn new() -> (r: MacroRecorder)
        ensures
            r@ == (RecorderView { recording: false, name: Seq::empty(), events: Seq::empty(), last_ns: None }),
    {
        MacroRecorder { recording: false, name: String::new(), events: Vec::new(), last_ns: None }
    }

    /// Whether a macro is being recorded.
    pub fn is_recording(&self) -> (r: bool)
        ensures
            r == self@.recording,
    {
        self.recording
    }

    /// The name of the macro being recorded, or of the last one.
    pub fn macro_name(&self) -> (r: String)
        ensures
            r@ == self@.name,
    {
        to_string(self.name.as_str())
    }

    /// The events captured so far.
    pub fn events(&self) -> (r: &Vec<RecordedEvent>)
        ensures
            r@ == self@.events,
    {
        &self.events
    }

    /// Starts recording the macro `name` at time `now_ns` (nanoseconds on a
    /// monotonic clock), forgetting the events
    /// of any earlier recording; refused while a recording is under way.
    pub fn start(&mut self, name: &str, now_ns: u64) -> (r: Result<(), RecorderError>)
        ensures
            old(self)@.recording ==> r == Err::<(), RecorderError>(RecorderError::AlreadyRecording)
                && final(self)@ == old(self)@,
            !old(self)@.recording ==> r is Ok && final(self)@ == started(name@, now_ns),
    {
        if self.recording {
            return Err(RecorderError::AlreadyRecording);
        }
        self.recording = true;
        self.name = to_string(name);
        self.events = Vec::new();
        self.last_ns = Some(now_ns);
        Ok(())
    }

    /// Captures an input event seen at time `now_ns` (nanoseconds on a
    /// monotonic clock), with the whole milliseconds since the previous event
    /// (or since the start) as its delay; ignored, with `false`,
    /// when no recording is under way.
    pub fn capture(&mut self, event_type: u16, code: u16, value: i32, now_ns: u64) -> (taken: bool)
        ensures
            taken == old(self)@.recording,
            taken ==> final(self)@ == captured(old(self)@, event_type, code, value, now_ns),
            !taken ==> final(self)@ == old(self)@,
    {
        if !self.recording {
            return false;
        }
        let delay_ms: u64 = match self.last_ns {
            Some(l) => if now_ns >= l { (now_ns - l) / NANOS_PER_MS } else { 0 },
            None => 0,
        };
        self.events.push(RecordedEvent { delay_ms, event_type, code, value });
        self.last_ns = Some(now_ns);
        true
    }

    /// Stops the recording under way and hands out the macro's name and its
    /// events, which the recorder keeps; refused when none is under way.
    pub fn stop(&mut self) -> (r: Result<(String, Vec<RecordedEvent>), RecorderError>)
        ensures
            !old(self)@.recording ==> r is Err && r->Err_0 == RecorderError::NotRecording
                && final(self)@ == old(self)@,
            old(self)@.recording ==> r is Ok && r->Ok_0.0@ == old(self)@.name && r->Ok_0.1@ == old(self)@.events
                && final(self)@ == (RecorderView { recording: false, ..old(self)@ }),
    {
        if !self.recording {
            return Err(RecorderError::NotRecording);
        }
        self.recording = false;
        let name = to_string(self.name.as_str());
        let events = self.events.clone();
        assert(events@ =~= self.events@);
        Ok((name, events))
    }

    /// Handles a start request of the daemon's HTTP interface: starts the
    /// recording and says so, or reports that one is already under way.
    pub fn start_request(&mut self, name: &str, now_ns: u64) -> (reply: ApiReply)
        ensures
            old(self)@.recording ==> final(self)@ == old(self)@ && !reply.success
                && reply.message@ == "Already recording"@,
            !old(self)@.recording ==> final(self)@ == started(name@, now_ns) && reply.success
                && reply.message@ == "Recording macro '"@ + name@ + "' started"@,
    {
        match self.start(name, now_ns) {
            Ok(()) => ApiReply { success: true, message: concat3("Recording macro '", name, "' started") },
            Err(_) => ApiReply { success: false, message: to_string("Already recording") },
        }
    }

    /// Handles a start request made by the agent on the model's behalf: starts
    /// the recording and reports the outcome as text for the model.
    pub fn start_command(&mut self, name: &str, now_ns: u64) -> (report: String)
        ensures
            old(self)@.recording ==> final(self)@ == old(self)@ && report@ == "Error: Already recording"@,
            !old(self)@.recording ==> final(self)@ == started(name@, now_ns)
                && report@ == "Success: Recording for macro '"@ + name@ + "' started."@,
    {
        match self.start(name, now_ns) {
            Ok(()) => concat3("Success: Recording for macro '", name, "' started."),
            Err(_) => to_string("Error: Already recording"),
        }
    }

    /// Handles a stop request of the daemon's HTTP interface: the macro to save,
    /// or the reply that nothing is being recorded.
    pub fn stop_request(&mut self) -> (r: Result<(String, Vec<RecordedEvent>), ApiReply>)
        ensures
            !old(self)@.recording ==> r is Err && !r->Err_0.success && r->Err_0.message@ == "Not recording"@
                && final(self)@ == old(self)@,
            old(self)@.recording ==> r is Ok && r->Ok_0.0@ == old(self)@.name && r->Ok_0.1@ == old(self)@.events
                && final(self)@ == (RecorderView { recording: false, ..old(self)@ }),
    {
        match self.stop() {
            Ok(m) => Ok(m),
            Err(_) => Err(ApiReply { success: false, message: to_string("Not recording") }),
        }
    }
}

/// How saving a stopped macro went.
#[derive(Debug, Clone)]
pub enum SaveOutcome {
    Saved,
    SerializationFailed,
    WriteFailed(String),
}

/// The reply to a stop request once the macro `name` was saved, or not.
pub fn save_reply(name: &str, outcome: &SaveOutcome) -> (reply: ApiReply)
    ensures
        match outcome {
            SaveOutcome::Saved => reply.success && reply.message@ == "Macro '"@ + name@ + "' saved successfully"@,
            SaveOutcome::SerializationFailed => !reply.success && reply.message@ == "Serialization failure"@,
            SaveOutcome::WriteFailed(e) => !reply.success && reply.message@ == "Failed to save macro: "@ + e@,
        },
{
    match outcome {
        SaveOutcome::Saved => ApiReply { success: true, message: concat3("Macro '", name, "' saved successfully") },
        SaveOutcome::SerializationFailed => ApiReply { success: false, message: to_string("Serialization failure") },
        SaveOutcome::WriteFailed(e) => ApiReply {
            success: false,
            message: concat2("Failed to save macro: ", e.as_str()),
        },
    }
}

/// The file name under which the macro `name` is stored.
pub open spec fn macro_file_spec(name: Seq<char>) -> Seq<char> {
    name + ".json"@
}

/// The file name under which the macro `name` is stored: the name with the
/// `.json` extension.
pub fn macro_file_name(name: &str) -> (r: String)
    ensures
        r@ == macro_file_spec(name@),
{
    concat2(name, ".json")
}

/// The macro stored in the file called `file`, as the macro list reads a
/// directory: the file's stem when its extension is `json`. As for
/// `std::path::Path`, the extension follows the last dot, and a name whose only
/// dot is its first character has none.
pub open spec fn macro_of_file(file: Seq<char>) -> Option<Seq<char>> {
    let p = last_index_of(file, '.');
    if p > 0 && file.subrange(p + 1, file.len() as int) == "json"@ {
        Some(file.subrange(0, p))
    } else {
        None
    }
}

/// The macro stored in the file called `file`, if the file holds one.
pub fn macro_name_of_file(file: &str) -> (r: Option<String>)
    ensures
        match r {
            Some(n) => macro_of_file(file@) == Some(n@),
            None => macro_of_file(file@) is None,
        },
{
    match last_index(file, '.') {
        Some(p) => {
            proof {
                lemma_last_index_bounds(file@, '.');
            }
            if p > 0 {
                let n = file.unicode_len();
                let ext = file.substring_char(p + 1, n);
                if str_eq(ext, "json") {
                    return Some(file.substring_char(0, p).to_owned());
                }
            }
            None
        },
        None => None,
    }
}

/// A file holds a macro only when its name is the macro's non-empty name
/// followed by `.json`: listing a file gives back the name it was saved under.
pub proof fn lemma_macro_file_inverse(file: Seq<char>)
    ensures
        macro_of_file(file) matches Some(m) ==> m.len() > 0 && file == macro_file_spec(m),
{
    reveal_strlit(".json");
    reveal_strlit("json");
    if let Some(m) = macro_of_file(file) {
        let p = last_index_of(file, '.');
        lemma_last_index_bounds(file, '.');
        assert(file[p] == '.');
        let ext = file.subrange(p + 1, file.len() as int);
        assert(ext == "json"@);
        assert(file =~= m + ".json"@) by {
            assert forall|i: int| 0 <= i < file.len() implies file[i] == (m + ".json"@)[i] by {
                if i > p {
                    assert(file[i] == ext[i - p - 1]);
                }
            }
        }
    }
}

/// The macros stored among the files of a directory, in the order of the files.
pub open spec fn macros_among(files: Seq<Seq<char>>) -> Seq<Seq<char>>
    decreases files.len(),
{
    if files.len() == 0 {
        Seq::empty()
    } else {
        let rest = macros_among(files.drop_last());
        match macro_of_file(files.last()) {
            Some(m) => rest.push(m),
            None => rest,
        }
    }
}

/// Listing files in two parts gives the macros of the first part followed by
/// those of the second: no file is skipped or counted twice, and the order of
/// the files is kept.
pub proof fn lemma_macros_among_append(a: Seq<Seq<char>>, b: Seq<Seq<char>>)
    ensures
        macros_among(a + b) == macros_among(a) + macros_among(b),
    decreases b.len(),
{
    if b.len() == 0 {
        assert(a + b =~= a);
        assert(macros_among(a) + macros_among(b) =~= macros_among(a));
    } else {
        lemma_macros_among_append(a, b.drop_last());
        assert((a + b).drop_last() =~= a + b.drop_last());
        assert((a + b).last() == b.last());
        match macro_of_file(b.last()) {
            Some(m) => {
                assert(macros_among(a) + macros_among(b) =~= (macros_among(a) + macros_among(b.drop_last())).push(m));
            },
            None => {},
        }
    }
}

/// Every file that holds a macro is listed, once, in file order: the macros
/// among files `fs` then `f` are those among `fs`, then the macro of `f` if it
/// holds one; a single file lists exactly its own macro.
pub proof fn lemma_every_macro_file_listed(fs: Seq<Seq<char>>, f: Seq<char>)
    ensures
        macros_among(seq![f]) == seq_of_option(macro_of_file(f)),
        macros_among(fs.push(f)) == macros_among(fs) + seq_of_option(macro_of_file(f)),
{
    let one = seq![f];
    assert(one.drop_last() =~= Seq::<Seq<char>>::empty());
    assert(one.last() == f);
    assert(macros_among(one.drop_last()) =~= Seq::<Seq<char>>::empty());
    match macro_of_file(f) {
        Some(m) => {
            assert(macros_among(one) == macros_among(one.drop_last()).push(m));
            assert(Seq::<Seq<char>>::empty().push(m) =~= seq![m]);
        },
        None => {
            assert(macros_among(one) == macros_among(one.drop_last()));
            assert(seq_of_option(macro_of_file(f)) =~= Seq::<Seq<char>>::empty());
        },
    }
    lemma_macros_among_append(fs, seq![f]);
    assert(fs + seq![f] =~= fs.push(f));
}

/// The names of the macros stored among the given file names.
pub fn macro_names(files: &Vec<String>) -> (names: Vec<String>)
    ensures
        crate::text::strings_view(names@) == macros_among(crate::text::strings_view(files@)),
{
    let ghost all = crate::text::strings_view(files@);
    let mut names: Vec<String> = Vec::new();
    let mut i: usize = 0;
    assert(all.subrange(0, 0) =~= Seq::<Seq<char>>::empty());
    while i < files.len()
        invariant
            i <= files@.len(),
            all == crate::text::strings_view(files@),
            crate::text::strings_view(names@) == macros_among(all.subrange(0, i as int)),
        decreases files@.len() - i,
    {
        let ghost sub = all.subrange(0, i as int + 1);
        assert(sub.drop_last() =~= all.subrange(0, i as int));
        assert(sub.last() == files@[i as int]@);
        match macro_name_of_file(files[i].as_str()) {
            Some(m) => {
                let ghost old_names = names@;
                names.push(m);
                assert(crate::text::strings_view(names@) =~= crate::text::strings_view(old_names).push(m@));
            },
            None => {},
        }
        i = i + 1;
    }
    assert(all.subrange(0, files@.len() as int) =~= all);
    names
}

/// A macro saved under a non-empty name is listed again under that name.
pub proof fn lemma_macro_file_round_trip(name: Seq<char>)
    requires
        name.len() > 0,
    ensures
        macro_of_file(macro_file_spec(name)) == Some(name),
{
    reveal_strlit(".json");
    reveal_strlit("json");
    let f = macro_file_spec(name);
    let n = name.len() as int;
    assert(f.len() == n + 5);
    assert(f[n] == '.');
    assert(f[n + 1] == 'j' && f[n + 2] == 's' && f[n + 3] == 'o' && f[n + 4] == 'n');
    lemma_last_index_bounds(f, '.');
    let p = last_index_of(f, '.');
    assert(p == n) by {
        if p < n {
            assert(f[n] != '.');
        } else if p > n {
            assert(f[p] == '.');
        }
    }
    assert(f.subrange(n + 1, f.len() as int) =~= "json"@);
    assert(f.subrange(0, n) =~= name);
}

/// One step of playing a macro back.
#[derive(Debug, Clone, Copy, PartialEq, Eq, Structural)]
pub enum PlaybackStep {
    Wait(u64),
    Emit { event_type: u16, code: u16, value: i32 },
}

/// The steps that play one recorded event: wait for its delay, when there is
/// one, then emit it.
pub open spec fn steps_for(e: RecordedEvent) -> Seq<PlaybackStep> {
    let emit = PlaybackStep::Emit { event_type: e.event_type, code: e.code, value: e.value };
    if e.delay_ms > 0 {
        seq![PlaybackStep::Wait(e.delay_ms), emit]
    } else {
        seq![emit]
    }
}

/// The steps that play a sequence of recorded events, in order.
pub open spec fn playback_of(events: Seq<RecordedEvent>) -> Seq<PlaybackStep>
    decreases events.len(),
{
    if events.len() == 0 {
        Seq::empty()
    } else {
        playback_of(events.drop_last()) + steps_for(events.last())
    }
}

/// The plan by which a stored macro is played back.
pub fn playback_plan(events: &Vec<RecordedEvent>) -> (plan: Vec<PlaybackStep>)
    ensures
        plan@ == playback_of(events@),
{
    let mut plan: Vec<PlaybackStep> = Vec::new();
    let mut i: usize = 0;
    assert(events@.subrange(0, 0) =~= Seq::<RecordedEvent>::empty());
    while i < events.len()
        invariant
            i <= events@.len(),
            plan@ == playback_of(events@.subrange(0, i as int)),
        decreases events@.len() - i,
    {
        let e = events[i];
        let ghost sub = events@.subrange(0, i as int + 1);
        assert(sub.drop_last() =~= events@.subrange(0, i as int));
        assert(sub.last() == e);
        let ghost before = plan@;
        if e.delay_ms > 0 {
            plan.push(PlaybackStep::Wait(e.delay_ms));
        }
        plan.push(PlaybackStep::Emit { event_type: e.event_type, code: e.code, value: e.value });
        assert(plan@ =~= before + steps_for(e));
        i = i + 1;
    }
    assert(events@.subrange(0, events@.len() as int) =~= events@);
    plan
}

/// The events that a plan emits, as (type, code, value), in order.
pub open spec fn emitted(plan: Seq<PlaybackStep>) -> Seq<(u16, u16, i32)>
    decreases plan.len(),
{
    if plan.len() == 0 {
        Seq::empty()
    } else {
        let rest = emitted(plan.drop_last());
        match plan.last() {
            PlaybackStep::Emit { event_type, code, value } => rest.push((event_type, code, value)),
            PlaybackStep::Wait(_) => rest,
        }
    }
}

/// The total time that a plan waits.
pub open spec fn waited(plan: Seq<PlaybackStep>) -> int
    decreases plan.len(),
{
    if plan.len() == 0 {
        0
    } else {
        waited(plan.drop_last()) + match plan.last() {
            PlaybackStep::Wait(ms) => ms as int,
            PlaybackStep::Emit { .. } => 0,
        }
    }
}

/// The (type, code, value) of each recorded event, in order.
pub open spec fn event_inputs(events: Seq<RecordedEvent>) -> Seq<(u16, u16, i32)> {
    events.map_values(|e: RecordedEvent| (e.event_type, e.code, e.value))
}

/// The sum of the delays of recorded events.
pub open spec fn total_delay(events: Seq<RecordedEvent>) -> int
    decreases events.len(),
{
    if events.len() == 0 {
        0
    } else {
        total_delay(events.drop_last()) + events.last().delay_ms
    }
}

proof fn lemma_emitted_append(a: Seq<PlaybackStep>, b: Seq<PlaybackStep>)
    ensures
        emitted(a + b) == emitted(a) + emitted(b),
        waited(a + b) == waited(a) + waited(b),
    decreases b.len(),
{
    if b.len() == 0 {
        assert(a + b =~= a);
        assert(emitted(a) + emitted(b) =~= emitted(a));
    } else {
        lemma_emitted_append(a, b.drop_last());
        assert((a + b).drop_last() =~= a + b.drop_last());
        assert((a + b).last() == b.last());
        match b.last() {
            PlaybackStep::Emit { event_type, code, value } => {
                assert(emitted(a) + emitted(b) =~= (emitted(a) + emitted(b.drop_last())).push((event_type, code, value)));
            },
            PlaybackStep::Wait(_) => {},
        }
    }
}

/// Playing a macro back emits exactly its recorded events, in order, and waits
/// in all the sum of their delays.
pub proof fn lemma_playback_faithful(events: Seq<RecordedEvent>)
    ensures
        emitted(playback_of(events)) == event_inputs(events),
        waited(playback_of(events)) == total_delay(events),
    decreases events.len(),
{
    if events.len() > 0 {
        let init = events.drop_last();
        let e = events.last();
        lemma_playback_faithful(init);
        lemma_emitted_append(playback_of(init), steps_for(e));
        let s = steps_for(e);
        let t = (e.event_type, e.code, e.value);
        if e.delay_ms > 0 {
            assert(s.drop_last() =~= seq![PlaybackStep::Wait(e.delay_ms)]);
            assert(s.drop_last().drop_last() =~= Seq::<PlaybackStep>::empty());
            assert(emitted(s.drop_last().drop_last()) =~= Seq::<(u16, u16, i32)>::empty());
            assert(emitted(s.drop_last()) =~= Seq::<(u16, u16, i32)>::empty());
            assert(emitted(s) =~= seq![t]);
            assert(waited(s.drop_last().drop_last()) == 0);
            assert(s.drop_last().last() == PlaybackStep::Wait(e.delay_ms));
            assert(waited(s.drop_last()) == e.delay_ms);
            assert(waited(s) == e.delay_ms);
        } else {
            assert(s.drop_last() =~= Seq::<PlaybackStep>::empty());
            assert(emitted(s.drop_last()) =~= Seq::<(u16, u16, i32)>::empty());
            assert(waited(s.drop_last()) == 0);
            assert(s.last() == PlaybackStep::Emit { event_type: e.event_type, code: e.code, value: e.value });
            assert(emitted(s) =~= seq![t]);
            assert(waited(s) == 0);
        }
        assert(playback_of(events) == playback_of(init) + s);
        assert(total_delay(events) == total_delay(init) + e.delay_ms);
        assert(event_inputs(events) =~= event_inputs(init).push((e.event_type, e.code, e.value)));
    } else {
        assert(event_inputs(events) =~= Seq::<(u16, u16, i32)>::empty());
    }
}

/// The recorder after capturing, in order, the inputs `(type, code, value,
/// time)`.
pub open spec fn capture_all(v: RecorderView, inputs: Seq<(u16, u16, i32, u64)>) -> RecorderView
    decreases inputs.len(),
{
    if inputs.len() == 0 {
        v
    } else {
        let i = inputs.last();
        captured(capture_all(v, inputs.drop_last()), i.0, i.1, i.2, i.3)
    }
}

/// Whether the times of the inputs never go back and none is before `t0`.
pub open spec fn times_from(t0: u64, inputs: Seq<(u16, u16, i32, u64)>) -> bool {
    &&& forall|k: int| 0 <= k < inputs.len() ==> t0 <= #[trigger] inputs[k].3
    &&& forall|j: int, k: int| 0 <= j <= k < inputs.len() ==> #[trigger] inputs[j].3 <= #[trigger] inputs[k].3
}

/// The time from the start at `t0` to the last input, in nanoseconds.
pub open spec fn span(t0: u64, inputs: Seq<(u16, u16, i32, u64)>) -> int {
    if inputs.len() == 0 {
        0
    } else {
        inputs.last().3 - t0
    }
}

/// A macro recorded from a start at time `t0` holds the captured inputs in
/// order, and its delays add up to the time from the start to the last input,
/// in whole milliseconds, short of it by less than one millisecond per event:
/// playing it back takes as long as the recording did, to that precision.
pub proof fn lemma_recording_timing(name: Seq<char>, t0: u64, inputs: Seq<(u16, u16, i32, u64)>)
    requires
        times_from(t0, inputs),
    ensures
        capture_all(started(name, t0), inputs).events.len() == inputs.len(),
        forall|k: int|
            0 <= k < inputs.len() ==> {
                let e = #[trigger] capture_all(started(name, t0), inputs).events[k];
                e.event_type == inputs[k].0 && e.code == inputs[k].1 && e.value == inputs[k].2
            },
        capture_all(started(name, t0), inputs).last_ns == Some(
            if inputs.len() == 0 { t0 } else { inputs.last().3 },
        ),
        total_delay(capture_all(started(name, t0), inputs).events) * NANOS_PER_MS <= span(t0, inputs),
        inputs.len() > 0 ==> span(t0, inputs) < (total_delay(capture_all(started(name, t0), inputs).events)
            + inputs.len()) * NANOS_PER_MS,
        capture_all(started(name, t0), inputs).recording,
        capture_all(started(name, t0), inputs).name == name,
    decreases inputs.len(),
{
    if inputs.len() > 0 {
        let init = inputs.drop_last();
        assert(times_from(t0, init)) by {
            assert forall|k: int| 0 <= k < init.len() implies t0 <= #[trigger] init[k].3 by {
                assert(init[k] == inputs[k]);
            }
            assert forall|j: int, k: int| 0 <= j <= k < init.len() implies #[trigger] init[j].3 <= #[trigger] init[k].3 by {
                assert(init[j] == inputs[j]);
                assert(init[k] == inputs[k]);
            }
        }
        lemma_recording_timing(name, t0, init);
        let prev = capture_all(started(name, t0), init);
        let last = inputs.last();
        let now = capture_all(started(name, t0), inputs);
        assert(now.events.drop_last() =~= prev.events);
        if init.len() > 0 {
            assert(init.last() == inputs[inputs.len() - 2]);
            assert(inputs[inputs.len() - 2].3 <= inputs[inputs.len() - 1].3);
        }
        assert(t0 <= inputs[inputs.len() - 1].3);
        let prev_t: int = if init.len() == 0 { t0 as int } else { init.last().3 as int };
        let d: int = last.3 - prev_t;
        assert(prev.last_ns == Some(if init.len() == 0 { t0 } else { init.last().3 }));
        assert(d >= 0);
        assert(now.events.last().delay_ms == d / 1_000_000);
        assert((d / 1_000_000) * 1_000_000 <= d && d < (d / 1_000_000) * 1_000_000 + 1_000_000) by (nonlinear_arith)
            requires
                d >= 0,
        ;
        assert(total_delay(now.events) == total_delay(prev.events) + d / 1_000_000);
        assert(span(t0, inputs) == span(t0, init) + d);
        assert forall|k: int| 0 <= k < inputs.len() implies {
            let e = #[trigger] now.events[k];
            e.event_type == inputs[k].0 && e.code == inputs[k].1 && e.value == inputs[k].2
        } by {
            if k < init.len() {
                assert(now.events[k] == prev.events[k]);
                assert(init[k] == inputs[k]);
            }
        }
    }
}

/// Why a stored macro could not be played.
#[derive(Debug, Clone)]
pub enum PlaybackFailure {
    NotFound,
    Unreadable(String),
    Malformed(String),
    NoDevice,
}

/// The reply of the daemon's HTTP interface to a request to play the macro
/// `name`, once playing it went as `outcome` says.
pub fn play_reply(name: &str, outcome: &Result<(), PlaybackFailure>) -> (reply: ApiReply)
    ensures
        reply.success == (outcome is Ok),
        match outcome {
            Ok(()) => reply.message@ == "Macro '"@ + name@ + "' played successfully"@,
            Err(PlaybackFailure::NotFound) => reply.message@ == "Macro not found"@,
            Err(PlaybackFailure::Unreadable(e)) => reply.message@ == e@,
            Err(PlaybackFailure::Malformed(e)) => reply.message@ == e@,
            Err(PlaybackFailure::NoDevice) => reply.message@ == "Virtual input device not available"@,
        },
{
    match outcome {
        Ok(()) => ApiReply { success: true, message: concat3("Macro '", name, "' played successfully") },
        Err(PlaybackFailure::NotFound) => ApiReply { success: false, message: to_string("Macro not found") },
        Err(PlaybackFailure::Unreadable(e)) => ApiReply { success: false, message: to_string(e.as_str()) },
        Err(PlaybackFailure::Malformed(e)) => ApiReply { success: false, message: to_string(e.as_str()) },
        Err(PlaybackFailure::NoDevice) => ApiReply {
            success: false,
            message: to_string("Virtual input device not available"),
        },
    }
}

/// The text for the model after the agent tried to play the macro `name` on
/// its behalf and playing went as `outcome` says.
pub fn play_report(name: &str, outcome: &Result<(), PlaybackFailure>) -> (report: String)
    ensures
        match outcome {
            Ok(()) => report@ == "Success: Macro '"@ + name@ + "' played back successfully"@,
            Err(PlaybackFailure::NotFound) => report@ == "Error: Macro '"@ + name@ + "' not found"@,
            Err(PlaybackFailure::Unreadable(e)) => report@ == "Error reading macro: "@ + e@,
            Err(PlaybackFailure::Malformed(e)) => report@ == "Error parsing macro: "@ + e@,
            Err(PlaybackFailure::NoDevice) => report@ == "Error: Virtual input device not available"@,
        },
{
    match outcome {
        Ok(()) => concat3("Success: Macro '", name, "' played back successfully"),
        Err(PlaybackFailure::NotFound) => concat3("Error: Macro '", name, "' not found"),
        Err(PlaybackFailure::Unreadable(e)) => concat2("Error reading macro: ", e.as_str()),
        Err(PlaybackFailure::Malformed(e)) => concat2("Error parsing macro: ", e.as_str()),
        Err(PlaybackFailure::NoDevice) => to_string("Error: Virtual input device not available"),
    }
}

/// Whether a node of `/dev/input` is an event device that may be recorded
/// from: its name begins with `event`.
pub fn is_event_node(file_name: &str) -> (r: bool)
    ensures
        r == "event"@.is_prefix_of(file_name@),
{
    starts_with(file_name, "event")
}

/// Whether an input device is the daemon's own virtual device, whose events
/// are not recorded lest playback feed back into a recording.
pub fn is_own_virtual_device(device_name: &str) -> (r: bool)
    ensures
        r == occurs_in("Aura Virtual"@, device_name@),
{
    contains(device_name, "Aura Virtual")
}

/// The name the daemon gives its virtual input device.
pub fn virtual_device_name() -> (r: String)
    ensures
        r@ == "Aura Virtual input device"@,
{
    to_string("Aura Virtual input device")
}

/// The key codes the virtual device can emit: the keyboard keys 0 to 255,
/// then the mouse buttons 0x110 to 0x117.
pub open spec fn virtual_key_code(i: int) -> int {
    if i < 256 {
        i
    } else {
        i - 256 + 0x110
    }
}

/// The key codes the virtual device can emit, in order.
pub fn virtual_device_keys() -> (keys: Vec<u16>)
    ensures
        keys@.len() == 264,
        forall|i: int| 0 <= i < 264 ==> keys@[i] as int == virtual_key_code(i),
{
    let mut keys: Vec<u16> = Vec::new();
    let mut k: u16 = 0;
    while k < 256
        invariant
            k <= 256,
            keys@.len() == k,
            forall|i: int| 0 <= i < k ==> keys@[i] as int == virtual_key_code(i),
        decreases 256 - k,
    {
        keys.push(k);
        k = k + 1;
    }
    let mut b: u16 = 0x110;
    while b < 0x118
        invariant
            0x110 <= b <= 0x118,
            keys@.len() == 256 + (b - 0x110),
            forall|i: int| 0 <= i < keys@.len() ==> keys@[i] as int == virtual_key_code(i),
        decreases 0x118 - b,
    {
        keys.push(b);
        b = b + 1;
    }
    keys
}

} // verus!
