use usb_test::command::CommandAction;
use usb_test::dispatch::{opcode_from_id, opcode_to_id, Action, LoopState, Opcode, ServiceDispatchLoop};

#[test]
fn opcode_identifiers_round_trip() {
    let all = [
        Opcode::SuspendResume,
        Opcode::DoCmd,
        Opcode::KeyboardChar,
        Opcode::HandlerTrigger,
        Opcode::Quit,
    ];
    for op in all {
        assert_eq!(opcode_from_id(opcode_to_id(op)), Some(op));
    }
    assert_eq!(opcode_from_id(5), None);
    assert_eq!(opcode_from_id(usize::MAX), None);
}

#[test]
fn uart_line_becomes_a_command() {
    let mut service = ServiceDispatchLoop::new();
    service.begin_serving();
    let keyboard = opcode_to_id(Opcode::KeyboardChar);
    let none: Vec<char> = Vec::new();
    for code in ['c' as usize, 'o' as usize, 'n' as usize, 'n' as usize] {
        assert_eq!(service.handle_event(keyboard, code, &none), Action::Nothing);
    }
    // carriage return completes the line and asks for one DoCmd event
    assert_eq!(service.handle_event(keyboard, 0x0d, &none), Action::EnqueueDoCmd { count: 1 });
    let do_cmd = opcode_to_id(Opcode::DoCmd);
    assert_eq!(
        service.handle_event(do_cmd, 0, &none),
        Action::Execute(CommandAction::ConnectAndPrint)
    );
    // a DoCmd with nothing pending parses the empty line
    assert_eq!(
        service.handle_event(do_cmd, 0, &none),
        Action::Execute(CommandAction::Unknown)
    );
}

#[test]
fn uart_delete_edits_the_line() {
    let mut service = ServiceDispatchLoop::new();
    service.begin_serving();
    let keyboard = opcode_to_id(Opcode::KeyboardChar);
    let do_cmd = opcode_to_id(Opcode::DoCmd);
    let none: Vec<char> = Vec::new();
    for code in ['r' as usize, 'e' as usize, 'g' as usize, 'z' as usize] {
        service.handle_event(keyboard, code, &none);
    }
    // delete the stray character, then finish the word
    assert_eq!(service.handle_event(keyboard, 0x7f, &none), Action::Nothing);
    service.handle_event(keyboard, 's' as usize, &none);
    assert_eq!(service.handle_event(keyboard, 0x0d, &none), Action::EnqueueDoCmd { count: 1 });
    assert_eq!(
        service.handle_event(do_cmd, 0, &none),
        Action::Execute(CommandAction::PrintRegs)
    );
}

#[test]
fn matrix_keys_feed_the_same_line() {
    let mut service = ServiceDispatchLoop::new();
    service.begin_serving();
    let trigger = opcode_to_id(Opcode::HandlerTrigger);
    let do_cmd = opcode_to_id(Opcode::DoCmd);
    let keys = vec!['c', 'o', 'n', 'n', ' ', '1', '\r'];
    assert_eq!(service.handle_event(trigger, 0, &keys), Action::EnqueueDoCmd { count: 1 });
    assert_eq!(
        service.handle_event(do_cmd, 0, &keys),
        Action::Execute(CommandAction::Connect(true))
    );
    // two completed lines in one tick ask for two DoCmd events
    let two = vec!['h', 'e', 'l', 'p', '\r', 'r', 'e', 'g', 's', '\r'];
    assert_eq!(service.handle_event(trigger, 0, &two), Action::EnqueueDoCmd { count: 2 });
    let empty: Vec<char> = Vec::new();
    assert_eq!(service.handle_event(do_cmd, 0, &empty), Action::Execute(CommandAction::Help));
    assert_eq!(service.handle_event(do_cmd, 0, &empty), Action::Execute(CommandAction::PrintRegs));
}

#[test]
fn suspend_event_and_cycle() {
    let mut service = ServiceDispatchLoop::new();
    service.begin_serving();
    service.register_device(7);
    service.register_device(9);
    let none: Vec<char> = Vec::new();
    let suspend = opcode_to_id(Opcode::SuspendResume);
    assert_eq!(
        service.handle_event(suspend, 42, &none),
        Action::RunSuspendCycle { token: 42 }
    );
    // the shell now drives the cycle the action asks for
    assert_eq!(service.begin_suspend(), vec![7, 9]);
    service.enter_suspended();
    assert_eq!(service.finish_resume(), vec![9, 7]);
}

#[test]
fn unknown_opcode_is_reported() {
    let mut service = ServiceDispatchLoop::new();
    service.begin_serving();
    let none: Vec<char> = Vec::new();
    assert_eq!(service.handle_event(11, 3, &none), Action::ReportUnknown { id: 11 });
    assert_eq!(service.lifecycle(), LoopState::Serving);
}

#[test]
fn quit_shuts_the_loop_down() {
    let mut service = ServiceDispatchLoop::new();
    assert_eq!(service.lifecycle(), LoopState::Initializing);
    service.begin_serving();
    let none: Vec<char> = Vec::new();
    assert_eq!(service.lifecycle(), LoopState::Serving);
    assert_eq!(service.handle_event(opcode_to_id(Opcode::Quit), 0, &none), Action::Shutdown);
    assert_eq!(service.lifecycle(), LoopState::ShuttingDown);
    service.finalize();
    assert_eq!(service.lifecycle(), LoopState::Terminated);
}

#[test]
fn invalid_uart_scalars_are_dropped() {
    let mut service = ServiceDispatchLoop::new();
    service.begin_serving();
    let keyboard = opcode_to_id(Opcode::KeyboardChar);
    let do_cmd = opcode_to_id(Opcode::DoCmd);
    let none: Vec<char> = Vec::new();
    service.handle_event(keyboard, 'a' as usize, &none);
    // null and non-scalar codes leave the line alone
    assert_eq!(service.handle_event(keyboard, 0, &none), Action::Nothing);
    assert_eq!(service.handle_event(keyboard, 0xD800, &none), Action::Nothing);
    service.handle_event(keyboard, 0x0d, &none);
    assert_eq!(
        service.handle_event(do_cmd, 0, &none),
        Action::Execute(CommandAction::Unknown)
    );
    // everything above leaves the coordinator untouched
    assert_eq!(service.begin_suspend(), Vec::<u32>::new());
    service.enter_suspended();
    assert_eq!(service.finish_resume(), Vec::<u32>::new());
}
