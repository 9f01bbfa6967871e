use remyx::runner::{handled_event, step, Context, Step, Wake};
use remyx::runtime::JoinError;
use remyx::terminal::{Cursor, Position, Size};

fn cursor() -> Cursor {
    Cursor::new(Position { x: 3, y: 4 }, Size { width: 80, height: 24 })
}

#[test]
fn context_starts_quiet() {
    let ctx: Context<u8> = Context::new(cursor());
    assert!(!ctx.should_redraw());
    assert_eq!(ctx.cursor().position(), Position { x: 3, y: 4 });
}

#[test]
fn publishing_forces_redraw_and_messages_come_in_order() {
    let mut ctx = Context::new(cursor());
    ctx.publish("a");
    ctx.publish("b");
    assert!(ctx.should_redraw());
    assert_eq!(ctx.messages(), vec!["a", "b"]);
    assert!(!ctx.should_redraw());
    assert_eq!(ctx.messages(), Vec::<&str>::new());
}

#[test]
fn redraw_request_survives_draining_messages() {
    let mut ctx: Context<u8> = Context::new(cursor());
    ctx.redraw();
    assert!(ctx.should_redraw());
    assert_eq!(ctx.messages(), Vec::<u8>::new());
    assert!(ctx.should_redraw());
}

#[test]
fn handled_event_hands_messages_to_update() {
    let mut quiet: Context<u8> = Context::new(cursor());
    assert_eq!(handled_event(&mut quiet), None);

    let mut redraw_only: Context<u8> = Context::new(cursor());
    redraw_only.redraw();
    assert_eq!(handled_event(&mut redraw_only), Some(vec![]));

    let mut busy = Context::new(cursor());
    busy.publish(1u8);
    busy.publish(2u8);
    assert_eq!(handled_event(&mut busy), Some(vec![1, 2]));
    assert_eq!(busy.messages(), Vec::<u8>::new());
}

fn decide(w: Wake<u8, char, &'static str>) -> Step<u8, char, &'static str> {
    step(w)
}

#[test]
fn loop_steps() {
    assert!(matches!(decide(Wake::Subscription(Some(1))), Step::Update(1)));
    assert!(matches!(decide(Wake::Subscription(None)), Step::Redraw));
    assert!(matches!(decide(Wake::Task(Some(Ok(2)))), Step::Update(2)));
    assert!(matches!(decide(Wake::Task(Some(Err(JoinError::Panicked)))), Step::Redraw));
    assert!(matches!(decide(Wake::Task(None)), Step::Redraw));
    assert!(matches!(decide(Wake::Terminal(Some(Ok('k')))), Step::Handle('k')));
    assert!(matches!(decide(Wake::Terminal(Some(Err("broken")))), Step::Fail("broken")));
    assert!(matches!(decide(Wake::Terminal(None)), Step::Stop));
}
