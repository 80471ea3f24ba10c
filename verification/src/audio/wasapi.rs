//! Aggregation of the audio sessions of the default output device into one
//! entry per sound-producing process.

use vstd::prelude::*;

verus! {

/// Bit pattern of the `f32` value 0.001: a session whose peak is above it
/// counts as sound-producing even when it is not in the active state.
pub const AUDIBLE_PEAK_BITS: u32 = 0x3a83_126f;

/// A process that is producing sound, with its loudest session's peak.
#[derive(Clone, Debug)]
pub struct ProcessAudioInfo {
    pub name: String,
    pub pid: u32,
    pub peak_bits: u32,
}

/// The mathematical value of a [`ProcessAudioInfo`].
pub struct ProcessAudioView {
    pub name: Seq<char>,
    pub pid: u32,
    pub peak_bits: u32,
}

impl View for ProcessAudioInfo {
    type V = ProcessAudioView;

    open spec fn view(&self) -> ProcessAudioView {
        ProcessAudioView { name: self.name@, pid: self.pid, peak_bits: self.peak_bits }
    }
}

/// The values of a sequence of processes.
pub open spec fn process_views(v: Seq<ProcessAudioInfo>) -> Seq<ProcessAudioView> {
    v.map_values(|p: ProcessAudioInfo| p@)
}

/// What was read of one audio session: the owning process id (`None` where
/// it could not be read), whether the session is in the active state, its
/// peak, and the name of its process (read only where
/// [`needs_process_name`] says so; empty otherwise).
#[derive(Debug)]
pub struct SessionSample {
    pub pid: Option<u32>,
    pub active: bool,
    pub peak_bits: u32,
    pub process_name: String,
}

/// The mathematical value of a [`SessionSample`].
pub struct SessionSampleView {
    pub pid: Option<u32>,
    pub active: bool,
    pub peak_bits: u32,
    pub process_name: Seq<char>,
}

impl View for SessionSample {
    type V = SessionSampleView;

    open spec fn view(&self) -> SessionSampleView {
        SessionSampleView {
            pid: self.pid,
            active: self.active,
            peak_bits: self.peak_bits,
            process_name: self.process_name@,
        }
    }
}

/// The values of a sequence of samples.
pub open spec fn sample_views(v: Seq<SessionSample>) -> Seq<SessionSampleView> {
    v.map_values(|s: SessionSample| s@)
}

/// Whether a session belongs to a real process (pid above 0) and is
/// producing sound: active, or with a peak above 0.001.
pub open spec fn session_counts(pid: Option<u32>, active: bool, peak_bits: u32) -> bool {
    &&& pid matches Some(p)
    &&& p > 0
    &&& (active || peak_bits > AUDIBLE_PEAK_BITS)
}

/// Whether a sample contributes to the list of sound-producing processes.
pub open spec fn sample_counts(s: SessionSampleView) -> bool {
    session_counts(s.pid, s.active, s.peak_bits)
}

/// Whether the process name of a session has to be read: exactly when the
/// session contributes to the list of sound-producing processes.
pub fn needs_process_name(pid: Option<u32>, active: bool, peak_bits: u32) -> (res: bool)
    ensures
        res == session_counts(pid, active, peak_bits),
{
    match pid {
        Some(p) => p > 0 && (active || peak_bits > AUDIBLE_PEAK_BITS),
        None => false,
    }
}

/// The name given to a process whose image name cannot be read:
/// "App (<pid>)".
pub fn unnamed_process(pid: u32) -> (res: String)
    ensures
        res@ == "App ("@ + crate::text::decimal(pid as nat) + ")"@,
{
    let mut name = String::from_str("App (");
    crate::text::append_decimal(&mut name, pid);
    name.append(")");
    name
}

/// Whether a character separates the components of a Windows path.
pub open spec fn is_path_separator(c: char) -> bool {
    c == '\\' || c == '/'
}

/// Whether a path begins with a drive prefix such as `C:`.
pub open spec fn has_drive_prefix(path: Seq<char>) -> bool {
    &&& path.len() >= 2
    &&& path[1] == ':'
    &&& (('A' <= path[0] && path[0] <= 'Z') || ('a' <= path[0] && path[0] <= 'z'))
}

/// The last component kept so far, after a component `cur` ends: empty
/// components and `.` are skipped.
pub open spec fn keep_component(last: Option<Seq<char>>, cur: Seq<char>) -> Option<Seq<char>> {
    if cur.len() == 0 || cur == "."@ {
        last
    } else {
        Some(cur)
    }
}

/// Reading a path from the left: the last component kept so far, and the
/// component being read.
pub open spec fn scan_components(path: Seq<char>) -> (Option<Seq<char>>, Seq<char>)
    decreases path.len(),
{
    if path.len() == 0 {
        (None, Seq::empty())
    } else {
        let (last, cur) = scan_components(path.drop_last());
        if is_path_separator(path.last()) {
            (keep_component(last, cur), Seq::empty())
        } else {
            (last, cur.push(path.last()))
        }
    }
}

/// The file name of a Windows path, as `Path::file_name` gives it: after a
/// drive prefix, the last component that is neither empty nor `.`, unless
/// that component is `..` or there is none.
pub open spec fn file_name_of(path: Seq<char>) -> Option<Seq<char>> {
    let body = if has_drive_prefix(path) {
        path.subrange(2, path.len() as int)
    } else {
        path
    };
    let (last, cur) = scan_components(body);
    match keep_component(last, cur) {
        Some(name) => if name == ".."@ {
            None
        } else {
            Some(name)
        },
        None => None,
    }
}

/// Whether no character of `n` is a path separator.
pub open spec fn has_no_separator(n: Seq<char>) -> bool {
    forall|i: int| 0 <= i < n.len() ==> !is_path_separator(#[trigger] n[i])
}

/// Whether every character of `s` from `from` up to `to` is a separator or
/// a dot.
pub open spec fn only_separators_or_dots(s: Seq<char>, from: int, to: int) -> bool {
    forall|c: int| from <= c < to ==> is_path_separator(#[trigger] s[c]) || s[c] == '.'
}

/// Whether `n` stands in `s` at index `a` at the start of a component.
pub open spec fn component_at(s: Seq<char>, n: Seq<char>, a: int) -> bool {
    &&& 0 <= a
    &&& a + n.len() <= s.len()
    &&& s.subrange(a, a + n.len()) == n
    &&& (a == 0 || is_path_separator(s[a - 1]))
}

#[verifier::spinoff_prover]
#[verifier::rlimit(40)]
proof fn lemma_scan_shape(s: Seq<char>)
    ensures
        ({
            let (last, cur) = scan_components(s);
            &&& cur.len() <= s.len()
            &&& component_at(s, cur, s.len() - cur.len())
            &&& has_no_separator(cur)
            &&& last matches Some(n) ==> {
                &&& n.len() > 0
                &&& n != "."@
                &&& has_no_separator(n)
                &&& exists|a: int|
                    #![trigger component_at(s, n, a)]
                    component_at(s, n, a) && a + n.len() < s.len() - cur.len() && only_separators_or_dots(
                        s,
                        a + n.len(),
                        s.len() - cur.len(),
                    )
            }
        }),
    decreases s.len(),
{
    if s.len() == 0 {
        assert(s.subrange(0, 0) =~= Seq::<char>::empty());
    } else {
        let front = s.drop_last();
        lemma_scan_shape(front);
        let (last, cur) = scan_components(front);
        let c = s.last();
        let start = front.len() - cur.len();
        assert(s.len() == front.len() + 1);
        assert(s[front.len() as int] == c);
        if is_path_separator(c) {
            let (last2, cur2) = scan_components(s);
            assert(cur2 == Seq::<char>::empty());
            assert(last2 == keep_component(last, cur));
            assert(s.subrange(s.len() as int, s.len() as int) =~= Seq::<char>::empty());
            assert(component_at(s, cur2, s.len() as int));
            if cur.len() == 0 || cur == "."@ {
                if let Some(n) = last {
                    let a = choose|a: int|
                        #![trigger component_at(front, n, a)]
                        component_at(front, n, a) && a + n.len() < front.len() - cur.len()
                            && only_separators_or_dots(front, a + n.len(), front.len() - cur.len());
                    assert(s.subrange(a, a + n.len()) =~= front.subrange(a, a + n.len()));
                    if a > 0 {
                        assert(s[a - 1] == front[a - 1]);
                    }
                    assert(component_at(s, n, a));
                    assert forall|k: int| a + n.len() <= k < s.len() implies is_path_separator(#[trigger] s[k])
                        || s[k] == '.' by {
                        if k < start {
                            assert(s[k] == front[k]);
                        } else if k < front.len() {
                            assert(s[k] == front[k]);
                            assert(front.subrange(start, front.len() as int)[k - start] == cur[k - start]);
                            reveal_strlit(".");
                        }
                    }
                    assert(only_separators_or_dots(s, a + n.len(), s.len() - cur2.len()));
                }
            } else {
                let n = cur;
                assert(s.subrange(start, start + n.len()) =~= front.subrange(start, front.len() as int));
                if start > 0 {
                    assert(s[start - 1] == front[start - 1]);
                }
                assert(component_at(s, n, start));
                assert forall|k: int| start + n.len() <= k < s.len() implies is_path_separator(#[trigger] s[k])
                    || s[k] == '.' by {}
                assert(only_separators_or_dots(s, start + n.len(), s.len() - cur2.len()));
            }
        } else {
            let (last2, cur2) = scan_components(s);
            assert(cur2 == cur.push(c));
            assert(last2 == last);
            assert(s.subrange(start, s.len() as int) =~= cur.push(c));
            if start > 0 {
                assert(s[start - 1] == front[start - 1]);
            }
            assert(component_at(s, cur2, start));
            assert forall|i: int| 0 <= i < cur2.len() implies !is_path_separator(#[trigger] cur2[i]) by {
                if i < cur.len() {
                    assert(cur2[i] == cur[i]);
                }
            }
            if let Some(n) = last {
                let a = choose|a: int|
                    #![trigger component_at(front, n, a)]
                    component_at(front, n, a) && a + n.len() < front.len() - cur.len()
                        && only_separators_or_dots(front, a + n.len(), front.len() - cur.len());
                assert(s.subrange(a, a + n.len()) =~= front.subrange(a, a + n.len()));
                if a > 0 {
                    assert(s[a - 1] == front[a - 1]);
                }
                assert(component_at(s, n, a));
                assert forall|k: int| a + n.len() <= k < start implies is_path_separator(#[trigger] s[k]) || s[k]
                    == '.' by {
                    assert(s[k] == front[k]);
                }
                assert(only_separators_or_dots(s, a + n.len(), s.len() - cur2.len()));
            }
        }
    }
}

/// Whether `n` stands in `path` at index `a` as its last component: at the
/// start of the path, after a separator or after a drive prefix, and followed
/// only by separators and dots.
pub open spec fn last_component_at(path: Seq<char>, n: Seq<char>, a: int) -> bool {
    &&& 0 <= a
    &&& a + n.len() <= path.len()
    &&& path.subrange(a, a + n.len()) == n
    &&& (a == 0 || is_path_separator(path[a - 1]) || (a == 2 && has_drive_prefix(path)))
    &&& only_separators_or_dots(path, a + n.len(), path.len() as int)
}

/// The file name of a path is a whole component of it: non-empty, neither
/// `.` nor `..`, without separators, standing at the start of the path, after
/// a separator or after a drive prefix, and followed only by separators and
/// dots.
pub proof fn lemma_file_name_is_last_component(path: Seq<char>)
    ensures
        file_name_of(path) matches Some(n) ==> {
            &&& n.len() > 0
            &&& n != "."@ && n != ".."@
            &&& has_no_separator(n)
            &&& exists|a: int| #[trigger] last_component_at(path, n, a)
        },
{
    let off: int = if has_drive_prefix(path) {
        2
    } else {
        0
    };
    let body = path.subrange(off, path.len() as int);
    assert(body == if has_drive_prefix(path) {
        path.subrange(2, path.len() as int)
    } else {
        path
    });
    lemma_scan_shape(body);
    let (last, cur) = scan_components(body);
    if let Some(n) = file_name_of(path) {
        let a: int = if cur.len() == 0 || cur == "."@ {
            choose|a: int|
                #![trigger component_at(body, n, a)]
                component_at(body, n, a) && a + n.len() < body.len() - cur.len() && only_separators_or_dots(
                    body,
                    a + n.len(),
                    body.len() - cur.len(),
                )
        } else {
            body.len() - cur.len()
        };
        assert(component_at(body, n, a));
        assert(path.subrange(a + off, a + off + n.len()) =~= body.subrange(a, a + n.len()));
        assert forall|k: int| a + off + n.len() <= k < path.len() implies is_path_separator(#[trigger] path[k])
            || path[k] == '.' by {
            assert(path[k] == body[k - off]);
            if k - off >= body.len() - cur.len() {
                assert(body.subrange(body.len() - cur.len(), body.len() as int)[k - off - (body.len() - cur.len())]
                    == cur[k - off - (body.len() - cur.len())]);
                if cur == "."@ {
                    reveal_strlit(".");
                }
            }
        }
        if a > 0 {
            assert(path[a + off - 1] == body[a - 1]);
        }
        assert(last_component_at(path, n, a + off));
    }
}

/// The value of an optional range of `s`.
pub open spec fn range_view(s: Seq<char>, r: Option<(usize, usize)>) -> Option<Seq<char>> {
    match r {
        Some((a, b)) => Some(s.subrange(a as int, b as int)),
        None => None,
    }
}

/// The range of the component `start..end` of `body` if it is kept, else
/// `last`.
fn keep_range(body: &str, last: Option<(usize, usize)>, start: usize, end: usize) -> (res: Option<(usize, usize)>)
    requires
        start <= end <= body@.len(),
        last matches Some((a, b)) ==> a <= b <= body@.len(),
    ensures
        range_view(body@, res) == keep_component(range_view(body@, last), body@.subrange(start as int, end as int)),
        res matches Some((a, b)) ==> a <= b <= body@.len(),
{
    if start == end || crate::text::str_equal(body.substring_char(start, end), ".") {
        last
    } else {
        Some((start, end))
    }
}

/// The file name of the image path of a process (see [`file_name_of`]).
pub fn image_file_name(path: &str) -> (res: Option<String>)
    ensures
        crate::text::opt_view(res) == file_name_of(path@),
{
    let n = path.unicode_len();
    let body: &str = if n >= 2 && path.get_char(1) == ':' && (('A' <= path.get_char(0) && path.get_char(0) <= 'Z') || (
    'a' <= path.get_char(0) && path.get_char(0) <= 'z')) {
        path.substring_char(2, n)
    } else {
        path
    };
    let len = body.unicode_len();
    let mut last: Option<(usize, usize)> = None;
    let mut start: usize = 0;
    let mut i: usize = 0;
    while i < len
        invariant
            len == body@.len(),
            start <= i <= len,
            last matches Some((a, b)) ==> a <= b <= body@.len(),
            scan_components(body@.take(i as int)) == (range_view(body@, last), body@.subrange(start as int, i as int)),
        decreases len - i,
    {
        let c = body.get_char(i);
        assert(body@.take(i + 1).drop_last() =~= body@.take(i as int));
        assert(body@.take(i + 1).last() == c);
        if c == '\\' || c == '/' {
            last = keep_range(body, last, start, i);
            start = i + 1;
            assert(body@.subrange(start as int, (i + 1) as int) =~= Seq::<char>::empty());
        } else {
            assert(body@.subrange(start as int, (i + 1) as int) =~= body@.subrange(start as int, i as int).push(c));
        }
        i = i + 1;
    }
    assert(body@.take(len as int) =~= body@);
    match keep_range(body, last, start, len) {
        Some((a, b)) => {
            let name = body.substring_char(a, b);
            if crate::text::str_equal(name, "..") {
                None
            } else {
                Some(String::from_str(name))
            }
        },
        None => None,
    }
}

/// The loudest peak over all sessions, or 0 (the bits of 0.0) when there
/// is none louder.
pub open spec fn overall_peak(samples: Seq<SessionSampleView>) -> u32
    decreases samples.len(),
{
    if samples.len() == 0 {
        0
    } else {
        let rest = overall_peak(samples.drop_last());
        if samples.last().peak_bits > rest {
            samples.last().peak_bits
        } else {
            rest
        }
    }
}

/// Whether `i` is the first index in `list` whose process id is `pid`.
pub open spec fn is_first_with_pid(list: Seq<ProcessAudioView>, pid: u32, i: int) -> bool {
    &&& 0 <= i < list.len()
    &&& list[i].pid == pid
    &&& forall|j: int| 0 <= j < i ==> list[j].pid != pid
}

/// `list` after a sound-producing session of process `pid` with the given
/// name and peak: the first entry of that process keeps the louder of the two
/// peaks; a process without an entry is appended.
pub open spec fn merge_session(list: Seq<ProcessAudioView>, name: Seq<char>, pid: u32, peak_bits: u32) -> Seq<ProcessAudioView> {
    if exists|i: int| 0 <= i < list.len() && list[i].pid == pid {
        let i = choose|i: int| is_first_with_pid(list, pid, i);
        if peak_bits > list[i].peak_bits {
            list.update(i, ProcessAudioView { peak_bits, ..list[i] })
        } else {
            list
        }
    } else {
        list.push(ProcessAudioView { name, pid, peak_bits })
    }
}

/// The sound-producing processes of the sessions, in order of first
/// appearance, each with the loudest peak of its sessions.
pub open spec fn active_processes(samples: Seq<SessionSampleView>) -> Seq<ProcessAudioView>
    decreases samples.len(),
{
    if samples.len() == 0 {
        Seq::empty()
    } else {
        let rest = active_processes(samples.drop_last());
        let s = samples.last();
        if sample_counts(s) {
            merge_session(rest, s.process_name, s.pid->0, s.peak_bits)
        } else {
            rest
        }
    }
}

/// The audio session monitor of the default output device.
pub struct WasapiMonitor {
    initialized: bool,
}

impl WasapiMonitor {
    /// A monitor for a thread on which the audio system has been initialised.
    pub fn new() -> (res: Self)
        ensures
            res.is_initialized_spec(),
    {
        WasapiMonitor { initialized: true }
    }

    /// Whether the audio system was initialised for this monitor.
    pub closed spec fn is_initialized_spec(&self) -> bool {
        self.initialized
    }

    /// Whether the audio system was initialised for this monitor, and is to
    /// be released when the monitor is dropped.
    pub fn is_initialized(&self) -> (res: bool)
        ensures
            res == self.is_initialized_spec(),
    {
        self.initialized
    }

    /// The loudest peak over all sessions, and the sound-producing processes
    /// with the loudest peak of their sessions.
    pub fn aggregate_sessions(&self, samples: &Vec<SessionSample>) -> (res: (u32, Vec<ProcessAudioInfo>))
        ensures
            res.0 == overall_peak(sample_views(samples@)),
            process_views(res.1@) == active_processes(sample_views(samples@)),
    {
        let ghost views = sample_views(samples@);
        let mut peak: u32 = 0;
        let mut list: Vec<ProcessAudioInfo> = Vec::new();
        let mut i: usize = 0;
        while i < samples.len()
            invariant
                i <= samples@.len(),
                views == sample_views(samples@),
                peak == overall_peak(views.take(i as int)),
                process_views(list@) == active_processes(views.take(i as int)),
            decreases samples@.len() - i,
        {
            let s = &samples[i];
            assert(views.take(i + 1).drop_last() =~= views.take(i as int));
            assert(views.take(i + 1).last() == s@);
            if s.peak_bits > peak {
                peak = s.peak_bits;
            }
            if needs_process_name(s.pid, s.active, s.peak_bits) {
                let pid = match s.pid {
                    Some(p) => p,
                    None => 0,
                };
                merge_into(&mut list, &s.process_name, pid, s.peak_bits);
            }
            i = i + 1;
        }
        assert(views.take(samples@.len() as int) =~= views);
        (peak, list)
    }
}

/// Merges one sound-producing session into the list of processes.
fn merge_into(list: &mut Vec<ProcessAudioInfo>, name: &String, pid: u32, peak_bits: u32)
    ensures
        process_views(final(list)@) == merge_session(process_views(old(list)@), name@, pid, peak_bits),
{
    let ghost before = process_views(list@);
    let mut i: usize = 0;
    while i < list.len()
        invariant
            i <= list@.len(),
            before == process_views(list@),
            before == process_views(old(list)@),
            forall|j: int| 0 <= j < i ==> before[j].pid != pid,
        decreases list@.len() - i,
    {
        if list[i].pid == pid {
            assert(before[i as int] == list@[i as int]@);
            assert(is_first_with_pid(before, pid, i as int));
            assert(exists|j: int| 0 <= j < before.len() && before[j].pid == pid);
            let ghost k = choose|k: int| is_first_with_pid(before, pid, k);
            assert(k == i) by {
                if k < i {
                    assert(before[k].pid != pid);
                } else if k > i {
                    assert(before[i as int].pid != pid);
                }
            }
            if peak_bits > list[i].peak_bits {
                let updated = ProcessAudioInfo { name: list[i].name.clone(), pid, peak_bits };
                list.set(i, updated);
                assert(process_views(list@) =~= before.update(
                    i as int,
                    ProcessAudioView { peak_bits, ..before[i as int] },
                ));
            }
            return;
        }
        i = i + 1;
    }
    list.push(ProcessAudioInfo { name: name.clone(), pid, peak_bits });
    assert(process_views(list@) =~= before.push(ProcessAudioView { name: name@, pid, peak_bits }));
}


/// Whether no two entries of `list` belong to the same process.
pub open spec fn pids_distinct(list: Seq<ProcessAudioView>) -> bool {
    forall|i: int, j: int| 0 <= i < list.len() && 0 <= j < list.len() && i != j ==> list[i].pid != list[j].pid
}

/// Each process appears at most once among the sound-producing processes,
/// and each of them has a process id above 0.
pub proof fn lemma_active_processes_distinct(samples: Seq<SessionSampleView>)
    ensures
        pids_distinct(active_processes(samples)),
        forall|i: int| 0 <= i < active_processes(samples).len() ==> #[trigger] active_processes(samples)[i].pid > 0,
    decreases samples.len(),
{
    if samples.len() > 0 {
        let rest = active_processes(samples.drop_last());
        lemma_active_processes_distinct(samples.drop_last());
        let s = samples.last();
        if sample_counts(s) {
            let pid = s.pid->0;
            if exists|i: int| 0 <= i < rest.len() && rest[i].pid == pid {
                let w = choose|i: int| 0 <= i < rest.len() && rest[i].pid == pid;
                lemma_first_index_exists(rest, pid, w);
            }
        }
    }
}

/// Where some entry of `list` belongs to `pid`, a first such entry exists.
proof fn lemma_first_index_exists(list: Seq<ProcessAudioView>, pid: u32, w: int)
    requires
        0 <= w < list.len(),
        list[w].pid == pid,
    ensures
        exists|i: int| is_first_with_pid(list, pid, i),
    decreases w,
{
    if exists|j: int| 0 <= j < w && list[j].pid == pid {
        let v = choose|j: int| 0 <= j < w && list[j].pid == pid;
        lemma_first_index_exists(list, pid, v);
    } else {
        assert(is_first_with_pid(list, pid, w));
    }
}

/// The overall peak is at least every session's peak, and it is either 0
/// or the peak of some session.
pub proof fn lemma_overall_peak_is_maximum(samples: Seq<SessionSampleView>)
    ensures
        forall|k: int| 0 <= k < samples.len() ==> #[trigger] samples[k].peak_bits <= overall_peak(samples),
        overall_peak(samples) == 0 || exists|k: int|
            0 <= k < samples.len() && #[trigger] samples[k].peak_bits == overall_peak(samples),
    decreases samples.len(),
{
    if samples.len() > 0 {
        let rest = samples.drop_last();
        lemma_overall_peak_is_maximum(rest);
        assert forall|k: int| 0 <= k < samples.len() implies #[trigger] samples[k].peak_bits <= overall_peak(
            samples,
        ) by {
            if k < samples.len() - 1 {
                assert(samples[k] == rest[k]);
            }
        }
        if overall_peak(samples) != 0 {
            if samples.last().peak_bits > overall_peak(rest) {
                assert(samples[samples.len() - 1].peak_bits == overall_peak(samples));
            } else {
                let k = choose|k: int| 0 <= k < rest.len() && #[trigger] rest[k].peak_bits == overall_peak(rest);
                assert(samples[k] == rest[k]);
            }
        }
    }
}

/// What merging one session into a list of processes keeps and adds.
proof fn lemma_merge_session_facts(list: Seq<ProcessAudioView>, name: Seq<char>, pid: u32, peak_bits: u32)
    ensures
        merge_session(list, name, pid, peak_bits).len() >= list.len(),
        forall|j: int|
            0 <= j < list.len() ==> (#[trigger] merge_session(list, name, pid, peak_bits)[j]).pid == list[j].pid
                && merge_session(list, name, pid, peak_bits)[j].peak_bits >= list[j].peak_bits,
        exists|j: int|
            0 <= j < merge_session(list, name, pid, peak_bits).len() && (#[trigger] merge_session(
                list,
                name,
                pid,
                peak_bits,
            )[j]).pid == pid && merge_session(list, name, pid, peak_bits)[j].peak_bits >= peak_bits,
        forall|j: int|
            0 <= j < merge_session(list, name, pid, peak_bits).len() ==> (j < list.len() && #[trigger] merge_session(
                list,
                name,
                pid,
                peak_bits,
            )[j] == list[j]) || (merge_session(list, name, pid, peak_bits)[j].pid == pid && merge_session(
                list,
                name,
                pid,
                peak_bits,
            )[j].peak_bits == peak_bits),
{
    let m = merge_session(list, name, pid, peak_bits);
    if exists|i: int| 0 <= i < list.len() && list[i].pid == pid {
        let w = choose|i: int| 0 <= i < list.len() && list[i].pid == pid;
        lemma_first_index_exists(list, pid, w);
        let i0 = choose|i: int| is_first_with_pid(list, pid, i);
        if peak_bits > list[i0].peak_bits {
            assert(m[i0].pid == pid);
        } else {
            assert(m[i0].pid == pid);
        }
    } else {
        assert(m[list.len() as int].pid == pid);
    }
}

/// Every sound-producing session is covered by the entry of its process,
/// whose peak is at least the session's.
pub proof fn lemma_sessions_covered(samples: Seq<SessionSampleView>)
    ensures
        forall|k: int|
            0 <= k < samples.len() && sample_counts(#[trigger] samples[k]) ==> exists|j: int|
                0 <= j < active_processes(samples).len() && active_processes(samples)[j].pid == samples[k].pid->0
                    && active_processes(samples)[j].peak_bits >= samples[k].peak_bits,
    decreases samples.len(),
{
    if samples.len() > 0 {
        let front = samples.drop_last();
        let rest = active_processes(front);
        let all = active_processes(samples);
        let s = samples.last();
        lemma_sessions_covered(front);
        if sample_counts(s) {
            lemma_merge_session_facts(rest, s.process_name, s.pid->0, s.peak_bits);
        }
        assert forall|k: int| 0 <= k < samples.len() && sample_counts(#[trigger] samples[k]) implies exists|j: int|
            0 <= j < all.len() && all[j].pid == samples[k].pid->0 && all[j].peak_bits >= samples[k].peak_bits by {
            if k < samples.len() - 1 {
                assert(samples[k] == front[k]);
                let j = choose|j: int|
                    0 <= j < rest.len() && rest[j].pid == front[k].pid->0 && rest[j].peak_bits >= front[k].peak_bits;
                assert(all[j].pid == rest[j].pid && all[j].peak_bits >= rest[j].peak_bits);
            } else {
                assert(samples[k] == s);
            }
        }
    }
}

/// The entry at index `j` has the peak of one of the sound-producing
/// sessions of its process.
proof fn lemma_entry_peak_attained_at(samples: Seq<SessionSampleView>, j: int)
    requires
        0 <= j < active_processes(samples).len(),
    ensures
        exists|k: int|
            0 <= k < samples.len() && sample_counts(#[trigger] samples[k]) && samples[k].pid->0
                == active_processes(samples)[j].pid && samples[k].peak_bits == active_processes(samples)[j].peak_bits,
    decreases samples.len(),
{
    let front = samples.drop_last();
    let rest = active_processes(front);
    let all = active_processes(samples);
    let s = samples.last();
    let last = samples.len() - 1;
    if sample_counts(s) {
        lemma_merge_session_facts(rest, s.process_name, s.pid->0, s.peak_bits);
        assert(all == merge_session(rest, s.process_name, s.pid->0, s.peak_bits));
    } else {
        assert(all == rest);
    }
    if j < rest.len() && all[j] == rest[j] {
        lemma_entry_peak_attained_at(front, j);
        let k = choose|k: int|
            0 <= k < front.len() && sample_counts(#[trigger] front[k]) && front[k].pid->0 == rest[j].pid
                && front[k].peak_bits == rest[j].peak_bits;
        assert(samples[k] == front[k]);
    } else {
        assert(samples[last] == s);
        assert(sample_counts(samples[last]));
    }
}

/// Whether the peak of entry `j` is the peak of one of the sound-producing
/// sessions of its process.
pub open spec fn entry_peak_attained(samples: Seq<SessionSampleView>, j: int) -> bool {
    exists|k: int|
        0 <= k < samples.len() && sample_counts(#[trigger] samples[k]) && samples[k].pid->0
            == active_processes(samples)[j].pid && samples[k].peak_bits == active_processes(samples)[j].peak_bits
}

/// Every entry's peak is the peak of one of the sound-producing sessions of
/// its process.
pub proof fn lemma_entry_peaks_attained(samples: Seq<SessionSampleView>)
    ensures
        forall|j: int| 0 <= j < active_processes(samples).len() ==> #[trigger] entry_peak_attained(samples, j),
{
    assert forall|j: int| 0 <= j < active_processes(samples).len() implies #[trigger] entry_peak_attained(
        samples,
        j,
    ) by {
        lemma_entry_peak_attained_at(samples, j);
    }
}

/// Every session of a real process (process id above 0) that is active or
/// has a peak above 0.001 has its process listed, with at least that peak;
/// and every listed process owns such a session whose peak it shows.
pub proof fn lemma_audible_sessions_listed(samples: Seq<SessionSampleView>)
    ensures
        forall|k: int|
            #![trigger samples[k]]
            0 <= k < samples.len() && samples[k].pid is Some && samples[k].pid->0 > 0 && (samples[k].active
                || samples[k].peak_bits > 0x3a83_126f) ==> exists|j: int|
                0 <= j < active_processes(samples).len() && active_processes(samples)[j].pid == samples[k].pid->0
                    && active_processes(samples)[j].peak_bits >= samples[k].peak_bits,
        forall|j: int|
            #![trigger active_processes(samples)[j]]
            0 <= j < active_processes(samples).len() ==> exists|k: int|
                0 <= k < samples.len() && samples[k].pid == Some(active_processes(samples)[j].pid)
                    && active_processes(samples)[j].pid > 0 && (samples[k].active || samples[k].peak_bits
                    > 0x3a83_126f) && #[trigger] samples[k].peak_bits == active_processes(samples)[j].peak_bits,
{
    lemma_sessions_covered(samples);
    lemma_entry_peaks_attained(samples);
    assert forall|j: int|
        #![trigger active_processes(samples)[j]]
        0 <= j < active_processes(samples).len() implies exists|k: int|
            0 <= k < samples.len() && samples[k].pid == Some(active_processes(samples)[j].pid)
                && active_processes(samples)[j].pid > 0 && (samples[k].active || samples[k].peak_bits > 0x3a83_126f)
                && #[trigger] samples[k].peak_bits == active_processes(samples)[j].peak_bits by {
        assert(entry_peak_attained(samples, j));
        let k = choose|k: int|
            0 <= k < samples.len() && sample_counts(#[trigger] samples[k]) && samples[k].pid->0
                == active_processes(samples)[j].pid && samples[k].peak_bits == active_processes(samples)[j].peak_bits;
        assert(samples[k].peak_bits == active_processes(samples)[j].peak_bits);
    }
}

/// Whether session `k` produces sound and belongs to process `pid`.
pub open spec fn counted_with_pid(samples: Seq<SessionSampleView>, k: int, pid: u32) -> bool {
    0 <= k < samples.len() && sample_counts(samples[k]) && samples[k].pid->0 == pid
}

/// Whether every sound-producing session of process `q` comes after some
/// sound-producing session of process `p`.
pub open spec fn comes_first(samples: Seq<SessionSampleView>, p: u32, q: u32) -> bool {
    forall|k: int|
        #[trigger] counted_with_pid(samples, k, q) ==> exists|k2: int| k2 < k && #[trigger] counted_with_pid(samples, k2, p)
}

/// Processes are listed in the order in which they first produce sound:
/// every sound-producing session of a later-listed process comes after a
/// sound-producing session of each earlier-listed one.
pub proof fn lemma_active_processes_in_order(samples: Seq<SessionSampleView>)
    ensures
        forall|i: int, j: int|
            0 <= i < j < active_processes(samples).len() ==> #[trigger] comes_first(
                samples,
                active_processes(samples)[i].pid,
                active_processes(samples)[j].pid,
            ),
    decreases samples.len(),
{
    if samples.len() > 0 {
        let front = samples.drop_last();
        let rest = active_processes(front);
        let all = active_processes(samples);
        let s = samples.last();
        let last = samples.len() - 1;
        lemma_active_processes_in_order(front);
        assert forall|k: int, pid: u32| 0 <= k < last && #[trigger] counted_with_pid(front, k, pid) implies counted_with_pid(
            samples,
            k,
            pid,
        ) by {
            assert(front[k] == samples[k]);
        }
        assert forall|k: int, pid: u32| #[trigger] counted_with_pid(samples, k, pid) && k < last implies counted_with_pid(
            front,
            k,
            pid,
        ) by {
            assert(front[k] == samples[k]);
        }
        if sample_counts(s) {
            let pid = s.pid->0;
            lemma_merge_session_facts(rest, s.process_name, pid, s.peak_bits);
            assert(all == merge_session(rest, s.process_name, pid, s.peak_bits));
            let found = exists|i: int| 0 <= i < rest.len() && rest[i].pid == pid;
            if !found {
                assert(all == rest.push(ProcessAudioView { name: s.process_name, pid, peak_bits: s.peak_bits }));
            } else {
                assert(all.len() == rest.len()) by {
                    let w = choose|i: int| 0 <= i < rest.len() && rest[i].pid == pid;
                    lemma_first_index_exists(rest, pid, w);
                }
            }
            lemma_sessions_covered(front);
            assert forall|i: int, j: int| 0 <= i < j < all.len() implies #[trigger] comes_first(
                samples,
                all[i].pid,
                all[j].pid,
            ) by {
                assert(all[i].pid == rest[i].pid);
                lemma_entry_peak_attained_at(front, i);
                let ki = choose|k: int|
                    0 <= k < front.len() && sample_counts(#[trigger] front[k]) && front[k].pid->0 == rest[i].pid
                        && front[k].peak_bits == rest[i].peak_bits;
                assert(counted_with_pid(front, ki, rest[i].pid));
                assert(counted_with_pid(samples, ki, all[i].pid));
                if j < rest.len() {
                    assert(all[j].pid == rest[j].pid);
                    assert(comes_first(front, rest[i].pid, rest[j].pid));
                    assert forall|k: int| #[trigger] counted_with_pid(samples, k, all[j].pid) implies exists|k2: int|
                        k2 < k && #[trigger] counted_with_pid(samples, k2, all[i].pid) by {
                        if k < last {
                            assert(counted_with_pid(front, k, rest[j].pid));
                            let k2 = choose|k2: int| k2 < k && #[trigger] counted_with_pid(front, k2, rest[i].pid);
                            assert(counted_with_pid(samples, k2, all[i].pid));
                        } else {
                            assert(samples[k] == s);
                            assert(ki < k);
                        }
                    }
                } else {
                    assert(!found);
                    assert(all[j].pid == pid);
                    assert forall|k: int| #[trigger] counted_with_pid(samples, k, all[j].pid) implies exists|k2: int|
                        k2 < k && #[trigger] counted_with_pid(samples, k2, all[i].pid) by {
                        if k < last {
                            assert(counted_with_pid(front, k, pid));
                            assert(sample_counts(front[k]));
                            let jj = choose|jj: int|
                                0 <= jj < rest.len() && rest[jj].pid == front[k].pid->0 && rest[jj].peak_bits
                                    >= front[k].peak_bits;
                            assert(rest[jj].pid == pid);
                        } else {
                            assert(ki < k);
                        }
                    }
                }
            }
        } else {
            assert(all == rest);
            assert forall|i: int, j: int| 0 <= i < j < all.len() implies #[trigger] comes_first(
                samples,
                all[i].pid,
                all[j].pid,
            ) by {
                assert(comes_first(front, rest[i].pid, rest[j].pid));
                assert forall|k: int| #[trigger] counted_with_pid(samples, k, all[j].pid) implies exists|k2: int|
                    k2 < k && #[trigger] counted_with_pid(samples, k2, all[i].pid) by {
                    if k == last {
                        assert(samples[k] == s);
                    }
                    assert(counted_with_pid(front, k, rest[j].pid));
                    let k2 = choose|k2: int| k2 < k && #[trigger] counted_with_pid(front, k2, rest[i].pid);
                    assert(counted_with_pid(samples, k2, all[i].pid));
                }
            }
        }
    }
}

/// No process's peak exceeds the overall peak.
pub proof fn lemma_entries_below_overall_peak(samples: Seq<SessionSampleView>)
    ensures
        forall|j: int|
            0 <= j < active_processes(samples).len() ==> #[trigger] active_processes(samples)[j].peak_bits
                <= overall_peak(samples),
{
    lemma_entry_peaks_attained(samples);
    lemma_overall_peak_is_maximum(samples);
    assert forall|j: int| 0 <= j < active_processes(samples).len() implies #[trigger] active_processes(
        samples,
    )[j].peak_bits <= overall_peak(samples) by {
        assert(entry_peak_attained(samples, j));
        let k = choose|k: int|
            0 <= k < samples.len() && sample_counts(#[trigger] samples[k]) && samples[k].pid->0 == active_processes(samples)[j].pid && samples[k].peak_bits == active_processes(samples)[j].peak_bits;
    }
}

} // verus!
