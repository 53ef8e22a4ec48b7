use rust_os::task::executor::{ExecAction, Executor};
use rust_os::task::keyboard::{PushOutcome, ScancodeQueue, SCANCODE_QUEUE_SIZE};
use rust_os::task::simple_executor::SimpleExecutor;
use rust_os::vga_buffer::{Color, ColorCode, Writer};

use pc_keyboard::{layouts, DecodedKey, HandleControl, PS2Keyboard, ScancodeSet1};

#[test]
fn executor_assigns_increasing_ids() {
    let mut ex = Executor::new();
    assert_eq!(ex.spawn(), 0);
    assert_eq!(ex.spawn(), 1);
    assert_eq!(ex.spawn(), 2);
}

#[test]
fn executor_polls_in_spawn_order_then_idles() {
    let mut ex = Executor::new();
    let a = ex.spawn();
    let b = ex.spawn();
    assert_eq!(ex.next_action(), ExecAction::Poll(a));
    ex.finish_poll(a, false);
    assert_eq!(ex.next_action(), ExecAction::Poll(b));
    ex.finish_poll(b, true);
    // a is pending and was not woken: nothing to do
    assert!(ex.is_idle());
    assert_eq!(ex.next_action(), ExecAction::Idle);
}

#[test]
fn executor_wake_after_idle_polls_once() {
    let mut ex = Executor::new();
    let a = ex.spawn();
    assert_eq!(ex.next_action(), ExecAction::Poll(a));
    ex.finish_poll(a, false);
    assert!(ex.is_idle());
    ex.wake(a);
    assert!(!ex.is_idle());
    assert_eq!(ex.next_action(), ExecAction::Poll(a));
    assert!(ex.is_idle());
    ex.finish_poll(a, false);
    assert_eq!(ex.next_action(), ExecAction::Idle);
}

#[test]
fn executor_drops_wakes_of_completed_tasks() {
    let mut ex = Executor::new();
    let a = ex.spawn();
    let b = ex.spawn();
    assert_eq!(ex.next_action(), ExecAction::Poll(a));
    ex.finish_poll(a, true);
    ex.wake(a);
    ex.wake(b);
    assert_eq!(ex.next_action(), ExecAction::Poll(b));
    ex.finish_poll(b, true);
    assert_eq!(ex.next_action(), ExecAction::Idle);
}

#[test]
fn simple_executor_requeues_pending_tasks() {
    let mut ex: SimpleExecutor<&str> = SimpleExecutor::new();
    ex.spawn("a");
    ex.spawn("b");
    let t = ex.next_task().unwrap();
    assert_eq!(t, "a");
    ex.finish_poll(t, false);
    let t = ex.next_task().unwrap();
    assert_eq!(t, "b");
    ex.finish_poll(t, true);
    let t = ex.next_task().unwrap();
    assert_eq!(t, "a");
    ex.finish_poll(t, true);
    assert!(ex.is_empty());
    assert_eq!(ex.next_task(), None);
}

#[test]
fn scancodes_come_out_in_push_order() {
    let mut q = ScancodeQueue::new(SCANCODE_QUEUE_SIZE);
    for b in [0x1e, 0x9e, 0x30, 0xb0] {
        assert_eq!(q.push(b), PushOutcome { wake: None, warn: false });
    }
    assert_eq!(q.poll_next(7), Some(0x1e));
    assert_eq!(q.poll_next(7), Some(0x9e));
    assert_eq!(q.poll_next(7), Some(0x30));
    assert_eq!(q.poll_next(7), Some(0xb0));
    assert_eq!(q.poll_next(7), None);
}

#[test]
fn waiting_task_is_woken_by_next_push() {
    let mut q = ScancodeQueue::new(4);
    assert_eq!(q.poll_next(3), None);
    assert_eq!(q.push(0x1e), PushOutcome { wake: Some(3), warn: false });
    // the waker slot is used once
    assert_eq!(q.push(0x9e), PushOutcome { wake: None, warn: false });
    assert_eq!(q.poll_next(3), Some(0x1e));
}

#[test]
fn full_queue_drops_newest_and_warns_once() {
    let mut q = ScancodeQueue::new(2);
    q.push(1);
    q.push(2);
    assert_eq!(q.push(3), PushOutcome { wake: None, warn: true });
    assert_eq!(q.push(4), PushOutcome { wake: None, warn: false });
    assert_eq!(q.len(), 2);
    assert_eq!(q.poll_next(0), Some(1));
    assert_eq!(q.poll_next(0), Some(2));
    assert_eq!(q.poll_next(0), None);
}

#[test]
fn keyboard_scancodes_print_in_order() {
    // scancode set 1: 'a' press/release, 'b' press/release
    let mut q = ScancodeQueue::new(SCANCODE_QUEUE_SIZE);
    for b in [0x1e, 0x9e, 0x30, 0xb0] {
        q.push(b);
    }
    let mut keyboard = PS2Keyboard::new(ScancodeSet1::new(), layouts::Us104Key, HandleControl::Ignore);
    let mut writer = Writer::new(ColorCode::new(Color::White, Color::Black));
    while let Some(scancode) = q.poll_next(1) {
        if let Ok(Some(event)) = keyboard.add_byte(scancode) {
            if let Some(DecodedKey::Unicode(c)) = keyboard.process_keyevent(event) {
                let mut buf = [0u8; 4];
                writer.write_string(c.encode_utf8(&mut buf));
            }
        }
    }
    assert_eq!(writer.cell(24, 0).ascii_character, b'a');
    assert_eq!(writer.cell(24, 1).ascii_character, b'b');
    assert_eq!(writer.column(), 2);
}
