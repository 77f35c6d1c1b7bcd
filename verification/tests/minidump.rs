use witchcraft_server::minidump::format::{
    dump_rename, format_dump, format_frame_entry, CallStack, FrameEntry, ProcessState, StackFrame,
};

fn frame(name: Option<&str>, file: Option<&str>, line: Option<u32>, inlines: Vec<FrameEntry>) -> StackFrame {
    StackFrame {
        function_name: name.map(str::to_string),
        source_file_name: file.map(str::to_string),
        source_line: line,
        inlines,
    }
}

#[test]
fn frame_entries() {
    let mut buf = String::new();
    let mut idx = Some(3);
    format_frame_entry(&mut buf, &mut idx, "main", Some("src/main.rs"), Some(7));
    assert_eq!(idx, None);
    format_frame_entry(&mut buf, &mut idx, "inner", Some("src/lib.rs"), None);
    format_frame_entry(&mut buf, &mut idx, "bare", None, Some(9));
    assert_eq!(
        buf,
        "   3 main\n              at src/main.rs:7\n     inner\n              at src/lib.rs:0\n     bare\n"
    );
    let mut buf = String::new();
    format_frame_entry(&mut buf, &mut Some(12345), "f", None, None);
    assert_eq!(buf, "12345 f\n");
}

#[test]
fn dump_report() {
    let crashed = CallStack {
        thread_id: 7,
        thread_name: Some("worker".to_string()),
        frames: vec![
            frame(
                Some("outer"),
                Some("a.rs"),
                Some(10),
                vec![FrameEntry { name: "inlined".to_string(), file: Some("b.rs".to_string()), line: Some(2) }],
            ),
            frame(None, None, None, Vec::new()),
        ],
    };
    let other = CallStack { thread_id: 1, thread_name: None, frames: vec![frame(Some("main"), None, None, Vec::new())] };
    let state = ProcessState {
        exception: Some(("SIGSEGV".to_string(), "0x0".to_string())),
        requesting_thread: Some(1),
        threads: vec![other, crashed],
    };
    let expected = "Crash reason: SIGSEGV\n\
                    Crash address: 0x0\n\
                    \n\
                    Crashed thread:\n\
                    Thread 7 - worker\n   \
                    0 inlined\n              \
                    at b.rs:2\n     \
                    outer\n              \
                    at a.rs:10\n   \
                    1 ???\n\
                    \n\
                    Threads:\n\
                    Thread 1\n   \
                    0 main\n\
                    \n";
    assert_eq!(format_dump(&state), expected);

    let quiet = ProcessState { exception: None, requesting_thread: None, threads: Vec::new() };
    assert_eq!(format_dump(&quiet), "Threads:\n");
}

#[test]
fn new_dumps_are_renamed() {
    assert_eq!(dump_rename("abc.dmp.new").as_deref(), Some("abc.dmp"));
    assert_eq!(dump_rename(".dmp.new").as_deref(), Some(".dmp"));
    assert_eq!(dump_rename("abc.dmp"), None);
    assert_eq!(dump_rename("abc.new"), None);
    assert_eq!(dump_rename("mp.new"), None);
}
