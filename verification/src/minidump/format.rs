//! The text report of a crashed process, and the names of the dump files it leaves.
use crate::text::{chars_of, decimal, push_char, push_decimal, push_str, space_padded, string_of};
use vstd::prelude::*;

verus! {

/// One function of a stack frame, possibly inlined into another.
pub struct FrameEntry {
    pub name: String,
    pub file: Option<String>,
    pub line: Option<u32>,
}

/// A stack frame: the functions inlined into it, innermost first, then its own function.
pub struct StackFrame {
    pub function_name: Option<String>,
    pub source_file_name: Option<String>,
    pub source_line: Option<u32>,
    pub inlines: Vec<FrameEntry>,
}

/// The stack of one thread.
pub struct CallStack {
    pub thread_id: u32,
    pub thread_name: Option<String>,
    pub frames: Vec<StackFrame>,
}

/// A processed crash dump: the crash reason and address (as text), the thread that crashed,
/// and every thread's stack.
pub struct ProcessState {
    pub exception: Option<(String, String)>,
    pub requesting_thread: Option<usize>,
    pub threads: Vec<CallStack>,
}

/// `n` spaces.
pub open spec fn spaces(n: nat) -> Seq<char> {
    Seq::new(n, |i: int| ' ')
}

/// One line per function: the frame number right-aligned in four columns before the first
/// function of a frame and five spaces before the others, the name, and an `at file:line` line
/// when the source file is known (line 0 when the line is not).
pub open spec fn spec_entry(idx: Option<nat>, name: Seq<char>, file: Option<Seq<char>>, line: Option<u32>) -> Seq<char> {
    let head = match idx {
        Some(i) => space_padded(i, 4) + seq![' '],
        None => spaces(5),
    };
    let at = match file {
        Some(f) => spaces(14) + seq!['a', 't', ' '] + f + seq![':'] + decimal(
            match line {
                Some(l) => l as nat,
                None => 0,
            },
        ) + seq!['\n'],
        None => Seq::empty(),
    };
    head + name + seq!['\n'] + at
}

/// The characters of an optional string.
pub open spec fn opt_chars(s: Option<String>) -> Option<Seq<char>> {
    match s {
        Some(x) => Some(x@),
        None => None,
    }
}

/// The lines of the inlined functions, the first numbered `idx` when given.
pub open spec fn spec_inlines(e: Seq<FrameEntry>, idx: Option<nat>) -> Seq<char>
    decreases e.len(),
{
    if e.len() == 0 {
        Seq::empty()
    } else {
        spec_entry(idx, e[0].name@, opt_chars(e[0].file), e[0].line) + spec_inlines(e.drop_first(), None)
    }
}

/// The lines of a stack frame numbered `idx`: its inlined functions, then its own function
/// (`???` when unnamed); only the first line carries the number.
pub open spec fn spec_frame(f: StackFrame, idx: nat) -> Seq<char> {
    let own_idx = if f.inlines@.len() == 0 { Some(idx) } else { None };
    spec_inlines(f.inlines@, Some(idx)) + spec_entry(
        own_idx,
        match f.function_name {
            Some(n) => n@,
            None => seq!['?', '?', '?'],
        },
        opt_chars(f.source_file_name),
        f.source_line,
    )
}

/// The lines of the frames from position `k` on.
pub open spec fn spec_frames(frames: Seq<StackFrame>, k: int) -> Seq<char>
    decreases frames.len() - k,
{
    if k >= frames.len() || k < 0 {
        Seq::empty()
    } else {
        spec_frame(frames[k], k as nat) + spec_frames(frames, k + 1)
    }
}

/// A thread's report: `Thread <id>` (and ` - <name>` when named), its frames, a blank line.
pub open spec fn spec_thread(t: CallStack) -> Seq<char> {
    let head = seq!['T', 'h', 'r', 'e', 'a', 'd', ' '] + decimal(t.thread_id as nat) + match t.thread_name {
        Some(n) => seq![' ', '-', ' '] + n@,
        None => Seq::empty(),
    } + seq!['\n'];
    head + spec_frames(t.frames@, 0) + seq!['\n']
}

/// The reports of the threads from position `k` on, leaving out the thread at `skip`.
pub open spec fn spec_threads(threads: Seq<CallStack>, k: int, skip: Option<usize>) -> Seq<char>
    decreases threads.len() - k,
{
    if k >= threads.len() || k < 0 {
        Seq::empty()
    } else if skip == Some(k as usize) {
        spec_threads(threads, k + 1, skip)
    } else {
        spec_thread(threads[k]) + spec_threads(threads, k + 1, skip)
    }
}

/// The report of each thread by position, empty for the thread at `skip`.
pub open spec fn thread_reports(threads: Seq<CallStack>, skip: Option<usize>) -> Seq<Seq<char>> {
    Seq::new(threads.len(), |i: int| if skip == Some(i as usize) { Seq::<char>::empty() } else { spec_thread(threads[i]) })
}

proof fn lemma_threads_from(threads: Seq<CallStack>, k: int, skip: Option<usize>)
    requires
        0 <= k <= threads.len(),
        threads.len() <= usize::MAX,
    ensures
        spec_threads(threads, k, skip) == thread_reports(threads, skip).subrange(k, threads.len() as int).flatten(),
    decreases threads.len() - k,
{
    let rs = thread_reports(threads, skip).subrange(k, threads.len() as int);
    if k == threads.len() {
        assert(rs =~= Seq::<Seq<char>>::empty());
    } else {
        lemma_threads_from(threads, k + 1, skip);
        assert(rs.drop_first() =~= thread_reports(threads, skip).subrange(k + 1, threads.len() as int));
        assert(rs.first() == thread_reports(threads, skip)[k]);
    }
}

/// The threads section lists, in order, the report of every thread but the one at `skip`,
/// each once: it is the concatenation of those reports.
pub proof fn lemma_threads_section(threads: Seq<CallStack>, skip: Option<usize>)
    requires
        threads.len() <= usize::MAX,
    ensures
        spec_threads(threads, 0, skip) == thread_reports(threads, skip).flatten(),
{
    lemma_threads_from(threads, 0, skip);
    assert(thread_reports(threads, skip).subrange(0, threads.len() as int) =~= thread_reports(threads, skip));
}

/// The part of the crash report before the other threads: the crash reason and address when
/// known, the crashed thread, and `Threads:`.
pub open spec fn spec_dump_head(s: ProcessState) -> Seq<char> {
    let exception = match s.exception {
        Some((reason, address)) => "Crash reason: "@ + reason@ + seq!['\n'] + "Crash address: "@
            + address@ + seq!['\n'],
        None => Seq::empty(),
    };
    let crashed = match s.requesting_thread {
        Some(i) => seq!['\n'] + "Crashed thread:\n"@ + spec_thread(s.threads@[i as int]),
        None => Seq::empty(),
    };
    exception + crashed + "Threads:\n"@
}

/// The crash report: the crash reason and address when known; the crashed thread, after a
/// blank line and `Crashed thread:`; then `Threads:` and every other thread.
pub open spec fn spec_dump(s: ProcessState) -> Seq<char> {
    let exception = match s.exception {
        Some((reason, address)) => "Crash reason: "@ + reason@ + seq!['\n'] + "Crash address: "@
            + address@ + seq!['\n'],
        None => Seq::empty(),
    };
    let crashed = match s.requesting_thread {
        Some(i) => seq!['\n'] + "Crashed thread:\n"@ + spec_thread(s.threads@[i as int]),
        None => Seq::empty(),
    };
    exception + crashed + "Threads:\n"@ + spec_threads(s.threads@, 0, s.requesting_thread)
}

fn push_spaces(buf: &mut String, n: usize)
    ensures
        final(buf)@ == old(buf)@ + spaces(n as nat),
{
    let ghost start = buf@;
    let mut i: usize = 0;
    while i < n
        invariant
            i <= n,
            buf@ =~= start + spaces(i as nat),
        decreases n - i,
    {
        push_char(buf, ' ');
        i = i + 1;
    }
}

fn decimal_len(n: u64) -> (r: u64)
    ensures
        r == decimal(n as nat).len(),
    decreases n,
{
    if n < 10 {
        1
    } else {
        let r = decimal_len(n / 10);
        proof {
            lemma_decimal_len_small((n / 10) as nat);
        }
        r + 1
    }
}

proof fn lemma_decimal_len_small(n: nat)
    ensures
        decimal(n).len() <= n + 1,
    decreases n,
{
    if n >= 10 {
        lemma_decimal_len_small(n / 10);
    }
}

/// Appends `n`, right-aligned in `width` columns.
fn push_space_padded(buf: &mut String, n: u64, width: u64)
    ensures
        final(buf)@ == old(buf)@ + space_padded(n as nat, width as nat),
{
    let ghost start = buf@;
    let len = decimal_len(n);
    if len < width {
        let pad = width - len;
        if pad > usize::MAX as u64 {
            // a pad this long would not fit in memory
            let mut i: u64 = 0;
            while i < pad
                invariant
                    i <= pad,
                    buf@ =~= start + spaces(i as nat),
                decreases pad - i,
            {
                push_char(buf, ' ');
                i = i + 1;
            }
        } else {
            push_spaces(buf, pad as usize);
        }
    }
    push_decimal(buf, n);
    assert(spaces((width - decimal(n as nat).len()) as nat) =~= Seq::new((width - decimal(n as nat).len()) as nat, |i: int| ' '));
    assert(buf@ =~= start + space_padded(n as nat, width as nat));
}

/// Appends the lines of one function of a frame; the frame number, when still due, goes on
/// this line and is then cleared.
pub fn format_frame_entry(buf: &mut String, idx: &mut Option<usize>, name: &str, file: Option<&str>, line: Option<u32>)
    ensures
        final(buf)@ == old(buf)@ + spec_entry(
            match *old(idx) {
                Some(i) => Some(i as nat),
                None => None,
            },
            name@,
            match file {
                Some(f) => Some(f@),
                None => None,
            },
            line,
        ),
        *final(idx) is None,
{
    let ghost start = buf@;
    match *idx {
        Some(i) => {
            push_space_padded(buf, i as u64, 4);
            push_char(buf, ' ');
            *idx = None;
        },
        None => push_spaces(buf, 5),
    }
    push_str(buf, name);
    push_char(buf, '\n');
    match file {
        Some(f) => {
            push_spaces(buf, 14);
            push_char(buf, 'a');
            push_char(buf, 't');
            push_char(buf, ' ');
            push_str(buf, f);
            push_char(buf, ':');
            let l: u32 = match line {
                Some(l) => l,
                None => 0,
            };
            push_decimal(buf, l as u64);
            push_char(buf, '\n');
        },
        None => {},
    }
    assert(buf@ =~= start + spec_entry(
        match *old(idx) {
            Some(i) => Some(i as nat),
            None => None,
        },
        name@,
        match file {
            Some(f) => Some(f@),
            None => None,
        },
        line,
    ));
}

fn opt_as_str(s: &Option<String>) -> (r: Option<&str>)
    ensures
        match r {
            Some(x) => Some(x@),
            None => None,
        } == opt_chars(*s),
{
    match s {
        Some(x) => Some(x.as_str()),
        None => None,
    }
}

/// Appends the lines of a stack frame numbered `idx`.
pub fn format_frame(buf: &mut String, frame: &StackFrame, idx: usize)
    ensures
        final(buf)@ == old(buf)@ + spec_frame(*frame, idx as nat),
{
    let ghost start = buf@;
    let mut idx_opt: Option<usize> = Some(idx);
    let mut k: usize = 0;
    let n = frame.inlines.len();
    assert(frame.inlines@.skip(0) =~= frame.inlines@);
    while k < n
        invariant
            k <= n,
            n == frame.inlines.len(),
            buf@ + spec_inlines(frame.inlines@.skip(k as int), match idx_opt { Some(i) => Some(i as nat), None => None })
                == start + spec_inlines(frame.inlines@, Some(idx as nat)),
            k == 0 ==> idx_opt == Some(idx),
            k > 0 ==> idx_opt is None,
        decreases n - k,
    {
        let e = &frame.inlines[k];
        proof {
            assert(frame.inlines@.skip(k as int)[0] == *e);
            assert(frame.inlines@.skip(k as int).drop_first() =~= frame.inlines@.skip(k + 1));
        }
        let ghost before = buf@;
        let ghost pre_idx = idx_opt;
        format_frame_entry(buf, &mut idx_opt, e.name.as_str(), opt_as_str(&e.file), e.line);
        proof {
            let rest = spec_inlines(frame.inlines@.skip(k + 1), None);
            assert(buf@ + rest =~= before + spec_inlines(frame.inlines@.skip(k as int), match pre_idx { Some(i) => Some(i as nat), None => None }));
        }
        k = k + 1;
    }
    proof {
        assert(frame.inlines@.skip(n as int) =~= Seq::<FrameEntry>::empty());
        assert(frame.inlines@.skip(0) =~= frame.inlines@);
    }
    let ghost mid = buf@;
    proof {
        reveal_strlit("???");
    }
    let name: &str = match &frame.function_name {
        Some(n) => n.as_str(),
        None => "???",
    };
    assert(name@ == match frame.function_name { Some(n) => n@, None => seq!['?', '?', '?'] }) by {
        if frame.function_name is None {
            assert("???"@ =~= seq!['?', '?', '?']);
        }
    }
    format_frame_entry(buf, &mut idx_opt, name, opt_as_str(&frame.source_file_name), frame.source_line);
    assert(buf@ =~= start + spec_frame(*frame, idx as nat));
}

/// Appends a thread's report.
pub fn format_thread(buf: &mut String, thread: &CallStack)
    ensures
        final(buf)@ == old(buf)@ + spec_thread(*thread),
{
    let ghost start = buf@;
    proof {
        reveal_strlit("Thread ");
        reveal_strlit(" - ");
    }
    push_str(buf, "Thread ");
    push_decimal(buf, thread.thread_id as u64);
    match &thread.thread_name {
        Some(name) => {
            push_str(buf, " - ");
            push_str(buf, name.as_str());
        },
        None => {},
    }
    push_char(buf, '\n');
    assert("Thread "@ =~= seq!['T', 'h', 'r', 'e', 'a', 'd', ' ']);
    assert(" - "@ =~= seq![' ', '-', ' ']);
    let ghost head = buf@;
    let mut i: usize = 0;
    let n = thread.frames.len();
    while i < n
        invariant
            i <= n,
            n == thread.frames.len(),
            buf@ + spec_frames(thread.frames@, i as int) == head + spec_frames(thread.frames@, 0),
        decreases n - i,
    {
        let ghost before = buf@;
        format_frame(buf, &thread.frames[i], i);
        assert(buf@ + spec_frames(thread.frames@, i + 1) =~= before + spec_frames(thread.frames@, i as int));
        i = i + 1;
    }
    assert(buf@ =~= head + spec_frames(thread.frames@, 0));
    push_char(buf, '\n');
    assert(buf@ =~= start + spec_thread(*thread));
}

/// The crash report of a processed dump.
pub fn format_dump(state: &ProcessState) -> (r: String)
    requires
        state.requesting_thread matches Some(i) ==> i < state.threads.len(),
    ensures
        r@ == spec_dump(*state),
        r@ == spec_dump_head(*state) + thread_reports(state.threads@, state.requesting_thread).flatten(),
{
    let mut buf = string_of("");
    proof {
        reveal_strlit("");
    }
    assert(buf@ =~= Seq::<char>::empty());
    match &state.exception {
        Some((reason, address)) => {
            push_str(&mut buf, "Crash reason: ");
            push_str(&mut buf, reason.as_str());
            push_char(&mut buf, '\n');
            push_str(&mut buf, "Crash address: ");
            push_str(&mut buf, address.as_str());
            push_char(&mut buf, '\n');
        },
        None => {},
    }
    let ghost after_exception = buf@;
    match state.requesting_thread {
        Some(i) => {
            push_char(&mut buf, '\n');
            push_str(&mut buf, "Crashed thread:\n");
            format_thread(&mut buf, &state.threads[i]);
        },
        None => {},
    }
    push_str(&mut buf, "Threads:\n");
    let ghost head = buf@;
    let n = state.threads.len();
    let mut i: usize = 0;
    while i < n
        invariant
            i <= n,
            n == state.threads.len(),
            buf@ + spec_threads(state.threads@, i as int, state.requesting_thread) == head
                + spec_threads(state.threads@, 0, state.requesting_thread),
        decreases n - i,
    {
        let ghost before = buf@;
        if state.requesting_thread == Some(i) {
        } else {
            format_thread(&mut buf, &state.threads[i]);
        }
        assert(buf@ + spec_threads(state.threads@, i + 1, state.requesting_thread) =~= before + spec_threads(state.threads@, i as int, state.requesting_thread));
        i = i + 1;
    }
    assert(buf@ =~= spec_dump(*state));
    proof {
        lemma_threads_section(state.threads@, state.requesting_thread);
        assert(spec_dump(*state) =~= spec_dump_head(*state) + spec_threads(state.threads@, 0, state.requesting_thread));
    }
    buf
}

/// The file a new crash dump is renamed to: a name ending in `.dmp.new` loses its `.new`;
/// any other file is left alone.
pub open spec fn spec_dump_rename(name: Seq<char>) -> Option<Seq<char>> {
    let suffix = seq!['.', 'd', 'm', 'p', '.', 'n', 'e', 'w'];
    if name.len() >= suffix.len() && name.subrange(name.len() - suffix.len(), name.len() as int) == suffix {
        Some(name.subrange(0, name.len() - 4))
    } else {
        None
    }
}

/// The name a new crash dump is renamed to, or `None` for a file that is not a new dump.
pub fn dump_rename(file_name: &str) -> (r: Option<String>)
    ensures
        match r {
            Some(x) => Some(x@),
            None => None,
        } == spec_dump_rename(file_name@),
{
    let c = chars_of(file_name);
    let suffix = vec!['.', 'd', 'm', 'p', '.', 'n', 'e', 'w'];
    let n = c.len();
    if n < 8 {
        return None;
    }
    let mut k: usize = 0;
    while k < 8
        invariant
            k <= 8,
            n == c.len(),
            n >= 8,
            c@ == file_name@,
            suffix@ == seq!['.', 'd', 'm', 'p', '.', 'n', 'e', 'w'],
            forall|j: int| 0 <= j < k ==> c@[n - 8 + j] == suffix@[j],
        decreases 8 - k,
    {
        if c[n - 8 + k] != suffix[k] {
            assert(c@.subrange(n - 8, n as int)[k as int] != suffix@[k as int]);
            assert(c@.subrange(n - 8, n as int) != suffix@);
            return None;
        }
        k = k + 1;
    }
    assert(c@.subrange(n - 8, n as int) =~= suffix@);
    let mut r = string_of("");
    proof {
        reveal_strlit("");
    }
    let mut i: usize = 0;
    while i < n - 4
        invariant
            i <= n - 4,
            n == c.len(),
            n >= 8,
            r@ =~= c@.subrange(0, i as int),
        decreases n - 4 - i,
    {
        push_char(&mut r, c[i]);
        i = i + 1;
    }
    Some(r)
}

} // verus!
