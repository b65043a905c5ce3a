//! Frame composition, the resize debounce and the delay schedule, plus
//! the end-to-end scenario a worker runs through.

use draw_thread::compose_frame;
use draw_thread::plan_frame;
use draw_thread::size_opt_eq;
use draw_thread::tick_delay_ms;
use draw_thread::ConsoleSize;
use draw_thread::DrawThread;
use draw_thread::FramePlan;
use draw_thread::TickBegin;
use draw_thread::BASE_DELAY_MS;
use draw_thread::RESIZE_DELAY_MS;

fn strings(pieces: &[&str]) -> Vec<String> {
    pieces.iter().map(|p| p.to_string()).collect()
}

#[test]
fn empty_frame_is_empty() {
    assert_eq!(compose_frame(&strings(&[])), "");
    assert_eq!(compose_frame(&strings(&[""])), "");
    assert_eq!(compose_frame(&strings(&["", "", ""])), "");
}

#[test]
fn adjacent_nonempty_texts_get_one_separator() {
    assert_eq!(compose_frame(&strings(&["10%", "20%"])), "10%\n20%");
    assert_eq!(compose_frame(&strings(&["a", "b", "c"])), "a\nb\nc");
}

#[test]
fn empty_text_contributes_no_break() {
    // An empty render resets the separator: no leading or trailing break,
    // and no break on behalf of the text before it.
    assert_eq!(compose_frame(&strings(&["a", "", "b"])), "ab");
    assert_eq!(compose_frame(&strings(&["", "x"])), "x");
    assert_eq!(compose_frame(&strings(&["x", ""])), "x");
    assert_eq!(compose_frame(&strings(&["", "a", "b"])), "a\nb");
}

#[test]
fn single_text_is_unchanged() {
    assert_eq!(compose_frame(&strings(&["downloading 3/7"])), "downloading 3/7");
}

#[test]
fn unchanged_size_renders() {
    let size = Some(ConsoleSize { cols: 80, rows: 24 });
    assert_eq!(plan_frame(size, size), FramePlan::Draw(ConsoleSize { cols: 80, rows: 24 }));
}

#[test]
fn changed_size_debounces() {
    let before = Some(ConsoleSize { cols: 80, rows: 24 });
    let after = Some(ConsoleSize { cols: 100, rows: 24 });
    assert_eq!(plan_frame(after, before), FramePlan::Resize);
    assert_eq!(plan_frame(None, before), FramePlan::Resize);
    assert_eq!(plan_frame(after, None), FramePlan::Resize);
}

#[test]
fn missing_size_skips_the_tick() {
    assert_eq!(plan_frame(None, None), FramePlan::Skip);
}

#[test]
fn delay_schedule() {
    assert_eq!(tick_delay_ms(FramePlan::Resize), RESIZE_DELAY_MS);
    assert_eq!(tick_delay_ms(FramePlan::Skip), BASE_DELAY_MS);
    assert_eq!(
        tick_delay_ms(FramePlan::Draw(ConsoleSize { cols: 80, rows: 24 })),
        BASE_DELAY_MS
    );
    assert_eq!(BASE_DELAY_MS, 120);
    assert_eq!(RESIZE_DELAY_MS, 200);
}

#[test]
fn size_comparison() {
    let a = Some(ConsoleSize { cols: 80, rows: 24 });
    let b = Some(ConsoleSize { cols: 80, rows: 25 });
    assert!(size_opt_eq(a, a));
    assert!(size_opt_eq(None, None));
    assert!(!size_opt_eq(a, b));
    assert!(!size_opt_eq(a, None));
    assert!(!size_opt_eq(None, b));
}

#[test]
fn environment_probe() {
    let ok = Some(ConsoleSize { cols: 80, rows: 24 });
    assert!(draw_thread::env_supports_drawing(true, ok));
    assert!(!draw_thread::env_supports_drawing(false, ok));
    assert!(!draw_thread::env_supports_drawing(true, None));
    assert!(!draw_thread::env_supports_drawing(true, Some(ConsoleSize { cols: 0, rows: 24 })));
    assert!(!draw_thread::env_supports_drawing(true, Some(ConsoleSize { cols: 80, rows: 0 })));
}

/// Each registered renderer here is just the text it would produce, the
/// way the shell's snapshot hands renderer outputs to `compose_frame`.
#[test]
fn two_entries_full_scenario() {
    let mut dt: DrawThread<&'static str> = DrawThread::new(true);
    let size = Some(ConsoleSize { cols: 80, rows: 24 });

    let (guard_a, start) = dt.add_entry("10%", true);
    let generation = start.unwrap();
    let (guard_b, none) = dt.add_entry("20%", true);
    assert_eq!(none, None);

    // One worker tick: snapshot, render outside the lock, commit.
    assert_eq!(dt.state.tick_begin(generation), TickBegin::Render);
    assert_eq!(plan_frame(size, size), FramePlan::Draw(ConsoleSize { cols: 80, rows: 24 }));
    let texts: Vec<String> = dt.state.entries.iter().map(|e| e.renderer.to_string()).collect();
    let frame = compose_frame(&texts);
    assert_eq!(frame, "10%\n20%");
    assert!(!dt.state.should_exit_draw_thread(generation));

    // Release A: the next frame holds only B.
    assert!(!dt.finish_entry(guard_a.0));
    assert_eq!(dt.state.tick_begin(generation), TickBegin::Render);
    let texts: Vec<String> = dt.state.entries.iter().map(|e| e.renderer.to_string()).collect();
    assert_eq!(compose_frame(&texts), "20%");

    // Release B: the display is cleared once and no further frame is
    // produced for this generation.
    assert!(dt.finish_entry(guard_b.0));
    assert_eq!(dt.state.tick_begin(generation), TickBegin::Exit);
    assert!(dt.state.should_exit_draw_thread(generation));
}
