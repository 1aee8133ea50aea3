use panic_sink::{
    handle_fault, write_decimal, write_report, BufferSink, FaultInfo, Halted, HookSlot, Location,
    PanicHandler, Sink, WriteError,
};

fn info_at<'a>(message: &'a str, file: &'a str, line: u32, column: u32) -> FaultInfo<'a> {
    FaultInfo { message, location: Some(Location { file, line, column }) }
}

fn info_bare(message: &str) -> FaultInfo<'_> {
    FaultInfo { message, location: None }
}

#[test]
fn new_slot_is_empty() {
    let slot = HookSlot::new();
    assert_eq!(slot.current_token(), None);
    assert!(slot.can_install());
}

#[test]
fn round_trip_returns_same_sink_and_empties_slot() {
    let mut slot = HookSlot::new();
    let mut sink = BufferSink::new(64);
    assert_eq!(sink.push("before "), Ok(()));
    let handler = PanicHandler::new(sink, &mut slot);
    assert!(handler.is_active(&slot));
    assert!(slot.current_token().is_some());
    let mut back = PanicHandler::detach(handler, &mut slot);
    assert_eq!(slot.current_token(), None);
    assert_eq!(back.as_str(), "before ");
    assert_eq!(back.capacity(), 64);
    assert_eq!(back.write_str("after"), Ok(()));
    assert_eq!(back.as_str(), "before after");
}

#[test]
fn later_registrant_takes_the_faults() {
    let mut slot = HookSlot::new();
    let mut first = PanicHandler::new(BufferSink::new(256), &mut slot);
    let mut second = PanicHandler::new(BufferSink::new(256), &mut slot);
    assert!(!first.is_active(&slot));
    assert!(second.is_active(&slot));
    let info = info_bare("boom");
    assert_eq!(handle_fault(&slot, &mut first, &info), Halted);
    assert_eq!(handle_fault(&slot, &mut second, &info), Halted);
    assert_eq!(first.get_ref().as_str(), "");
    assert_eq!(second.get_ref().as_str(), "panicked:\nboom");
}

#[test]
fn stale_destroy_keeps_later_registrant() {
    let mut slot = HookSlot::new();
    let first = PanicHandler::new(BufferSink::new(16), &mut slot);
    let second = PanicHandler::new(BufferSink::new(16), &mut slot);
    let later = slot.current_token();
    first.destroy(&mut slot);
    assert_eq!(slot.current_token(), later);
    assert!(second.is_active(&slot));
    second.destroy(&mut slot);
    assert_eq!(slot.current_token(), None);
}

#[test]
fn stale_detach_keeps_later_registrant() {
    let mut slot = HookSlot::new();
    let first = PanicHandler::new(BufferSink::new(16), &mut slot);
    let second = PanicHandler::new(BufferSink::new(16), &mut slot);
    let _ = PanicHandler::detach(first, &mut slot);
    assert!(second.is_active(&slot));
}

#[test]
fn fault_with_empty_slot_writes_nothing_and_halts() {
    let mut slot = HookSlot::new();
    let handler = PanicHandler::new(BufferSink::new(64), &mut slot);
    let sink = PanicHandler::detach(handler, &mut slot);
    let mut idle = PanicHandler::new(sink, &mut HookSlot::new());
    let empty = HookSlot::new();
    let info = info_bare("lost");
    assert_eq!(handle_fault(&empty, &mut idle, &info), Halted);
    assert_eq!(idle.get_ref().as_str(), "");
}

#[test]
fn pass_through_matches_direct_writes() {
    let long: String = "0123456789abcdef".repeat(1000);
    let inputs = ["", "hello", "line\nbreak", "ünïcödé", long.as_str()];
    let mut slot = HookSlot::new();
    let mut through = PanicHandler::new(BufferSink::new(100_000), &mut slot);
    let mut direct = BufferSink::new(100_000);
    for s in inputs.iter() {
        assert_eq!(through.write_str(s), direct.write_str(s));
        assert_eq!(through.get_ref().as_str(), direct.as_str());
    }
    assert_eq!(direct.len(), 5 + 10 + 7 + 16_000);
}

#[test]
fn pass_through_reports_refusal() {
    let mut slot = HookSlot::new();
    let mut through = PanicHandler::new(BufferSink::new(4), &mut slot);
    let mut direct = BufferSink::new(4);
    assert_eq!(through.write_str("abc"), Ok(()));
    assert_eq!(direct.write_str("abc"), Ok(()));
    assert_eq!(through.write_str("de"), Err(WriteError));
    assert_eq!(direct.write_str("de"), Err(WriteError));
    assert_eq!(through.get_ref().as_str(), "abc");
    assert_eq!(direct.as_str(), "abc");
}

#[test]
fn fault_report_carries_message_and_location() {
    let mut slot = HookSlot::new();
    let mut handler = PanicHandler::new(BufferSink::new(256), &mut slot);
    let info = info_at("divide by zero at line 42", "src/main.rs", 42, 7);
    assert_eq!(handle_fault(&slot, &mut handler, &info), Halted);
    assert_eq!(
        handler.get_ref().as_str(),
        "panicked at src/main.rs:42:7:\ndivide by zero at line 42"
    );
}

#[test]
fn fault_report_without_location() {
    let mut slot = HookSlot::new();
    let mut handler = PanicHandler::new(BufferSink::new(256), &mut slot);
    handler.report_fault(&info_bare("divide by zero at line 42"));
    assert_eq!(handler.get_ref().as_str(), "panicked:\ndivide by zero at line 42");
}

#[test]
fn fault_report_that_does_not_fit_stops_early() {
    let mut slot = HookSlot::new();
    let mut handler = PanicHandler::new(BufferSink::new(20), &mut slot);
    let info = info_at("divide by zero at line 42", "src/main.rs", 42, 7);
    assert_eq!(handle_fault(&slot, &mut handler, &info), Halted);
    let text = handler.get_ref().as_str();
    assert_eq!(text, "panicked at ");
    assert!("panicked at src/main.rs:42:7:\ndivide by zero at line 42".starts_with(text));
}

#[test]
fn write_report_signals_refusal() {
    let mut sink = BufferSink::new(10);
    assert_eq!(write_report(&mut sink, &info_bare("0123456789")), Err(WriteError));
    assert_eq!(sink.as_str(), "panicked:\n");
    let mut roomy = BufferSink::new(100);
    assert_eq!(write_report(&mut roomy, &info_bare("0123456789")), Ok(()));
    assert_eq!(roomy.as_str(), "panicked:\n0123456789");
}

#[test]
fn decimal_digits() {
    for (n, text) in [(0u32, "0"), (7, "7"), (10, "10"), (42, "42"), (1905, "1905"), (u32::MAX, "4294967295")] {
        let mut sink = BufferSink::new(32);
        assert_eq!(write_decimal(&mut sink, n), Ok(()));
        assert_eq!(sink.as_str(), text);
    }
}

#[test]
fn decimal_refused_midway() {
    let mut sink = BufferSink::new(2);
    assert_eq!(write_decimal(&mut sink, 12345), Err(WriteError));
    assert_eq!(sink.as_str(), "12");
}

#[test]
fn buffer_sink_refuses_whole_write() {
    let mut sink = BufferSink::new(5);
    assert_eq!(sink.push("abc"), Ok(()));
    assert_eq!(sink.push("def"), Err(WriteError));
    assert_eq!(sink.as_str(), "abc");
    assert_eq!(sink.push("de"), Ok(()));
    assert_eq!(sink.as_str(), "abcde");
    assert_eq!(sink.len(), 5);
    assert_eq!(sink.push(""), Ok(()));
}

#[test]
fn writes_through_handler_survive_detach() {
    let mut slot = HookSlot::new();
    let mut handler = PanicHandler::new(BufferSink::new(8), &mut slot);
    let mut direct = BufferSink::new(8);
    for s in ["ab", "", "cdef", "ghi", "gh"].iter() {
        assert_eq!(handler.write_str(s), direct.write_str(s));
    }
    let back = PanicHandler::detach(handler, &mut slot);
    assert_eq!(back.as_str(), direct.as_str());
    assert_eq!(back.as_str(), "abcdefgh");
}

#[test]
fn report_fills_sink_with_exact_room() {
    let expected = "panicked at a.rs:1:2:\nx";
    let mut slot = HookSlot::new();
    let mut handler = PanicHandler::new(BufferSink::new(expected.chars().count()), &mut slot);
    let info = info_at("x", "a.rs", 1, 2);
    assert_eq!(handle_fault(&slot, &mut handler, &info), Halted);
    assert_eq!(handler.get_ref().as_str(), expected);
}

#[test]
fn report_reaches_later_registrant_after_earlier_destroyed() {
    let mut slot = HookSlot::new();
    let first = PanicHandler::new(BufferSink::new(256), &mut slot);
    let mut second = PanicHandler::new(BufferSink::new(256), &mut slot);
    first.destroy(&mut slot);
    let info = info_bare("divide by zero at line 42");
    assert_eq!(handle_fault(&slot, &mut second, &info), Halted);
    assert_eq!(second.get_ref().as_str(), "panicked:\ndivide by zero at line 42");
}
