use kom::context::{CommandLineKindExt, Context, Demand, Step};
use kom::search::SearchLineData;

struct Source {
    lines: Vec<&'static str>,
    next: usize,
    reads: usize,
}

impl Source {
    fn of(lines: &[&'static str]) -> Source {
        Source { lines: lines.to_vec(), next: 0, reads: 0 }
    }

    fn read(&mut self) -> String {
        self.reads += 1;
        if self.next < self.lines.len() {
            let mut raw = String::from(self.lines[self.next]);
            raw.push('\n');
            self.next += 1;
            raw
        } else {
            String::new()
        }
    }
}

fn run(ctx: &mut Context, source: &mut Source, first: Step) -> bool {
    let mut step = first;
    loop {
        match step {
            Step::Read => step = ctx.feed(source.read()),
            Step::Done(changed) => return changed,
        }
    }
}

fn ten_lines() -> Source {
    Source::of(&["l0", "l1", "l2", "l3", "l4", "l5", "l6", "l7", "l8", "l9"])
}

#[test]
fn two_lines_wrap_to_three_rows() {
    let mut source = Source::of(&["abcdefghijk", "xyz"]);
    let mut ctx = Context::new(10, 5, None);
    let step = ctx.fill_buffer();
    run(&mut ctx, &mut source, step);
    assert_eq!(ctx.offset(), 0);
    assert_eq!(ctx.lines(), vec!["abcdefghij", "k", "xyz"]);
}

#[test]
fn visible_rows_are_the_same_when_asked_twice() {
    let mut source = ten_lines();
    let mut ctx = Context::new(10, 4, None);
    let step = ctx.fill_buffer();
    run(&mut ctx, &mut source, step);
    let step = ctx.scroll_down(2);
    run(&mut ctx, &mut source, step);
    let first: Vec<String> = ctx.lines().iter().map(|row| row.to_string()).collect();
    let second: Vec<String> = ctx.lines().iter().map(|row| row.to_string()).collect();
    assert_eq!(first, second);
    assert_eq!(first, vec!["l2", "l3", "l4"]);
    assert_eq!(ctx.render(), ctx.render());
}

#[test]
fn page_down_on_short_text_hits_the_end() {
    let mut source = Source::of(&["abcdefghijk", "xyz"]);
    let mut ctx = Context::new(10, 5, None);
    let step = ctx.fill_buffer();
    run(&mut ctx, &mut source, step);
    let step = ctx.scroll_down_screen();
    assert_eq!(step, Step::Read);
    let changed = run(&mut ctx, &mut source, step);
    assert!(changed);
    assert_eq!(ctx.offset(), 0);
    assert!(ctx.status_row().contains("(END)"));
    assert_eq!(ctx.lines(), vec!["abcdefghij", "k", "xyz"]);
}

#[test]
fn fill_reads_no_more_than_a_page() {
    let mut source = ten_lines();
    let mut ctx = Context::new(10, 3, None);
    let step = ctx.fill_buffer();
    assert_eq!(step, Step::Read);
    assert_eq!(ctx.demand(), Demand::Fill);
    let changed = run(&mut ctx, &mut source, step);
    assert!(!changed);
    assert_eq!(source.reads, 2);
    assert_eq!(ctx.demand(), Demand::Idle);
    assert_eq!(ctx.lines(), vec!["l0", "l1"]);
    assert_eq!(ctx.fill_buffer(), Step::Done(false));
}

#[test]
fn fill_counts_rows_not_lines() {
    let mut source = Source::of(&["abcdefghijklmnopqrstuvwxy", "second", "third"]);
    let mut ctx = Context::new(10, 4, None);
    let step = ctx.fill_buffer();
    run(&mut ctx, &mut source, step);
    assert_eq!(source.reads, 1);
    assert_eq!(ctx.lines(), vec!["abcdefghij", "klmnopqrst", "uvwxy"]);
}

#[test]
fn fill_stops_at_the_end_of_a_short_text() {
    let mut source = Source::of(&["only"]);
    let mut ctx = Context::new(10, 5, Some(String::from("name")));
    let step = ctx.fill_buffer();
    let changed = run(&mut ctx, &mut source, step);
    assert!(!changed);
    assert_eq!(source.reads, 2);
    assert_eq!(ctx.demand(), Demand::Idle);
    assert_eq!(ctx.lines(), vec!["only"]);
    assert!(ctx.status_row().contains("name"));
}

#[test]
fn fill_on_one_row_terminal_reads_nothing() {
    let mut ctx = Context::new(10, 1, None);
    assert_eq!(ctx.fill_buffer(), Step::Done(false));
    assert_eq!(ctx.lines(), Vec::<&str>::new());
}

#[test]
fn scroll_down_reads_what_the_window_needs() {
    let mut source = ten_lines();
    let mut ctx = Context::new(10, 3, None);
    let step = ctx.fill_buffer();
    run(&mut ctx, &mut source, step);
    let step = ctx.scroll_down_line();
    assert_eq!(step, Step::Read);
    assert_eq!(ctx.demand(), Demand::Scroll(1));
    assert_eq!(ctx.offset(), 0);
    assert!(run(&mut ctx, &mut source, step));
    assert_eq!(source.reads, 3);
    assert_eq!(ctx.offset(), 1);
    assert_eq!(ctx.lines(), vec!["l1", "l2"]);
    let step = ctx.scroll_down_screen();
    assert!(run(&mut ctx, &mut source, step));
    assert_eq!(source.reads, 5);
    assert_eq!(ctx.offset(), 3);
    assert_eq!(ctx.lines(), vec!["l3", "l4"]);
}

#[test]
fn scroll_down_within_buffered_rows_reads_nothing() {
    let mut source = ten_lines();
    let mut ctx = Context::new(10, 3, None);
    let step = ctx.scroll_down(4);
    run(&mut ctx, &mut source, step);
    assert_eq!(source.reads, 6);
    assert!(ctx.scroll_up(4));
    assert_eq!(ctx.scroll_down(3), Step::Done(true));
    assert_eq!(ctx.offset(), 3);
    assert_eq!(ctx.scroll_down(0), Step::Done(false));
    assert_eq!(ctx.offset(), 3);
    assert_eq!(source.reads, 6);
}

#[test]
fn scroll_up_stops_at_the_top() {
    let mut source = ten_lines();
    let mut ctx = Context::new(10, 3, None);
    let step = ctx.scroll_down(3);
    run(&mut ctx, &mut source, step);
    assert_eq!(ctx.offset(), 3);
    assert!(ctx.scroll_up_line());
    assert_eq!(ctx.offset(), 2);
    assert!(ctx.scroll_up_screen());
    assert_eq!(ctx.offset(), 0);
    assert!(!ctx.scroll_up_screen());
    assert_eq!(ctx.offset(), 0);
    assert!(!ctx.scroll_up(usize::MAX));
    assert_eq!(ctx.offset(), 0);
}

#[test]
fn scroll_up_takes_the_banner_away() {
    let mut ctx = Context::new(10, 3, Some(String::from("name")));
    assert!(ctx.status_row().contains("name"));
    assert!(ctx.scroll_up_line());
    assert_eq!(ctx.status_row(), ":");
    assert!(!ctx.scroll_up_line());
}

#[test]
fn scroll_down_takes_the_banner_away() {
    let mut source = ten_lines();
    let mut ctx = Context::new(10, 3, Some(String::from("name")));
    let step = ctx.fill_buffer();
    run(&mut ctx, &mut source, step);
    assert_eq!(ctx.scroll_down(0), Step::Done(true));
    assert_eq!(ctx.status_row(), ":");
    assert_eq!(ctx.offset(), 0);
}

#[test]
fn scrolling_leaves_a_search() {
    let mut source = ten_lines();
    let mut ctx = Context::new(10, 3, None);
    let step = ctx.fill_buffer();
    run(&mut ctx, &mut source, step);
    ctx.switch_to_search_mode();
    assert_eq!(ctx.cmd_line_kind(), CommandLineKindExt::Search);
    let step = ctx.scroll_down_line();
    assert!(run(&mut ctx, &mut source, step));
    assert_eq!(ctx.cmd_line_kind(), CommandLineKindExt::Normal);
    assert_eq!(ctx.status_row(), ":");
}

#[test]
fn scroll_past_the_end_stops_at_the_last_screen() {
    let mut source = ten_lines();
    let mut ctx = Context::new(10, 3, None);
    let step = ctx.fill_buffer();
    run(&mut ctx, &mut source, step);
    let step = ctx.scroll_down(100);
    assert!(run(&mut ctx, &mut source, step));
    assert_eq!(source.reads, 11);
    assert_eq!(ctx.offset(), 8);
    assert_eq!(ctx.lines(), vec!["l8", "l9"]);
    assert!(ctx.status_row().contains("(END)"));
}

#[test]
fn scroll_down_by_the_largest_number_does_not_overflow() {
    let mut source = ten_lines();
    let mut ctx = Context::new(10, 3, None);
    let step = ctx.scroll_down(5);
    run(&mut ctx, &mut source, step);
    assert_eq!(ctx.offset(), 5);
    let step = ctx.scroll_down(usize::MAX);
    assert_eq!(ctx.demand(), Demand::Scroll(usize::MAX));
    assert!(run(&mut ctx, &mut source, step));
    assert_eq!(ctx.offset(), 8);
}

#[test]
fn the_end_is_pinned() {
    let mut source = ten_lines();
    let mut ctx = Context::new(10, 3, None);
    let step = ctx.scroll_down(100);
    run(&mut ctx, &mut source, step);
    assert_eq!(ctx.offset(), 8);
    for rows in [1usize, 2, 7, usize::MAX] {
        let step = ctx.scroll_down(rows);
        assert_eq!(step, Step::Read);
        assert!(!run(&mut ctx, &mut source, step));
        assert_eq!(ctx.offset(), 8);
        assert!(ctx.status_row().contains("(END)"));
    }
    let step = ctx.scroll_down_line();
    assert!(!run(&mut ctx, &mut source, step));
    let step = ctx.scroll_down_screen();
    assert!(!run(&mut ctx, &mut source, step));
    assert_eq!(ctx.offset(), 8);
    assert!(ctx.status_row().contains("(END)"));
}

#[test]
fn the_end_of_a_short_text_is_pinned_for_a_scroll_by_nothing() {
    let mut source = Source::of(&["a", "b"]);
    let mut ctx = Context::new(10, 5, None);
    let step = ctx.scroll_down_line();
    assert!(run(&mut ctx, &mut source, step));
    assert!(ctx.status_row().contains("(END)"));
    let step = ctx.scroll_down(0);
    assert_eq!(step, Step::Read);
    assert!(!run(&mut ctx, &mut source, step));
    assert_eq!(ctx.offset(), 0);
    assert!(ctx.status_row().contains("(END)"));
}

#[test]
fn a_scroll_by_nothing_on_a_full_last_screen_shows_the_prompt() {
    let mut source = ten_lines();
    let mut ctx = Context::new(10, 3, None);
    let step = ctx.scroll_down(100);
    run(&mut ctx, &mut source, step);
    assert_eq!(ctx.scroll_down(0), Step::Done(true));
    assert_eq!(ctx.offset(), 8);
    assert_eq!(ctx.status_row(), ":");
}

#[test]
fn offset_never_falls_on_the_way_down_nor_rises_on_the_way_up() {
    let mut source = Source::of(&["abcdefghijklmno", "", "pq", "rstuvwxyzabcdefghijklmnopqrstu", "v"]);
    let mut ctx = Context::new(7, 4, None);
    let mut last = ctx.offset();
    for rows in [0usize, 1, 1, 2, 0, 3, 1, 9, 1] {
        let mut step = ctx.scroll_down(rows);
        assert!(ctx.offset() >= last);
        while step == Step::Read {
            step = ctx.feed(source.read());
            assert!(ctx.offset() >= last);
        }
        assert!(ctx.offset() <= last.saturating_add(rows));
        last = ctx.offset();
    }
    assert_eq!(last, 8);
    for rows in [0usize, 1, 2, 1, 9, 1] {
        ctx.scroll_up(rows);
        assert!(ctx.offset() <= last);
        assert!(ctx.offset() >= last.saturating_sub(rows));
        last = ctx.offset();
    }
    assert_eq!(last, 0);
}

#[test]
fn a_line_that_nobody_waits_for_is_buffered() {
    let mut ctx = Context::new(10, 3, None);
    assert_eq!(ctx.feed(String::from("early\n")), Step::Done(false));
    assert_eq!(ctx.feed(String::new()), Step::Done(false));
    assert_eq!(ctx.lines(), vec!["early"]);
    assert_eq!(ctx.offset(), 0);
    assert_eq!(ctx.status_row(), ":");
}

#[test]
fn feed_asks_on_until_the_window_is_full() {
    let mut ctx = Context::new(10, 4, None);
    assert_eq!(ctx.scroll_down(1), Step::Read);
    assert_eq!(ctx.feed(String::from("a\n")), Step::Read);
    assert_eq!(ctx.feed(String::from("b\n")), Step::Read);
    assert_eq!(ctx.feed(String::from("c\n")), Step::Read);
    assert_eq!(ctx.offset(), 0);
    assert_eq!(ctx.feed(String::from("d\n")), Step::Done(true));
    assert_eq!(ctx.offset(), 1);
    assert_eq!(ctx.demand(), Demand::Idle);
    assert_eq!(ctx.lines(), vec!["b", "c", "d"]);
}

#[test]
fn search_mode_is_entered_and_left() {
    let mut ctx = Context::new(10, 5, Some(String::from("name")));
    assert_eq!(ctx.cmd_line_kind(), CommandLineKindExt::Normal);
    ctx.switch_to_search_mode();
    assert_eq!(ctx.cmd_line_kind(), CommandLineKindExt::Search);
    assert_eq!(ctx.status_row(), "/\x1b[5;2H");
    ctx.switch_to_normal_mode();
    assert_eq!(ctx.cmd_line_kind(), CommandLineKindExt::Normal);
    assert_eq!(ctx.status_row(), ":");
}

#[test]
fn entering_search_anew_forgets_the_text() {
    let mut ctx = Context::new(10, 5, None);
    ctx.switch_to_search_mode();
    ctx.search_push_char('x');
    ctx.switch_to_search_mode();
    assert_eq!(ctx.status_row(), "/\x1b[5;2H");
}

#[test]
fn typing_left_and_backspace_leave_the_second_letter() {
    let mut ctx = Context::new(10, 5, None);
    ctx.switch_to_search_mode();
    ctx.search_push_char('a');
    ctx.search_push_char('b');
    ctx.search_cursor_left();
    ctx.search_erase_char();
    assert_eq!(ctx.status_row(), "/b\x1b[5;2H");
}

#[test]
fn search_line_editing() {
    let mut data = SearchLineData::new();
    assert_eq!(data.text(), "");
    data.insert_char('a');
    data.insert_char('c');
    data.cursor_left();
    data.insert_char('b');
    assert_eq!(data.text(), "abc");
    data.delete_char();
    assert_eq!(data.text(), "ab");
    data.delete_char();
    assert_eq!(data.text(), "ab");
    data.cursor_right();
    data.erase_char();
    assert_eq!(data.text(), "a");
    data.erase_char();
    data.erase_char();
    assert_eq!(data.text(), "");
    data.cursor_left();
    data.cursor_right();
    data.insert_char('z');
    assert_eq!(data.text(), "z");
}

#[test]
fn search_cursor_stays_within_the_text() {
    let mut ctx = Context::new(80, 24, None);
    ctx.switch_to_search_mode();
    let column = |ctx: &Context| -> usize {
        let row = ctx.status_row();
        let tail = row.rsplit(';').next().unwrap();
        tail.trim_end_matches('H').parse().unwrap()
    };
    let length = |ctx: &Context| -> usize {
        let row = ctx.status_row();
        row.split('\x1b').next().unwrap().chars().count() - 1
    };
    let mut seed: u32 = 12345;
    for _ in 0..400 {
        seed = seed.wrapping_mul(1664525).wrapping_add(1013904223);
        match (seed >> 16) % 5 {
            0 => ctx.search_push_char('x'),
            1 => ctx.search_erase_char(),
            2 => ctx.search_delete_char(),
            3 => ctx.search_cursor_left(),
            _ => ctx.search_cursor_right(),
        }
        let cursor = column(&ctx) - 2;
        assert!(cursor <= length(&ctx));
    }
}

#[test]
fn search_cursor_moves_and_deletes() {
    let mut ctx = Context::new(10, 7, None);
    ctx.switch_to_search_mode();
    ctx.search_cursor_left();
    ctx.search_cursor_right();
    ctx.search_delete_char();
    ctx.search_erase_char();
    assert_eq!(ctx.status_row(), "/\x1b[7;2H");
    ctx.search_push_char('a');
    ctx.search_push_char('b');
    ctx.search_push_char('c');
    assert_eq!(ctx.status_row(), "/abc\x1b[7;5H");
    ctx.search_cursor_right();
    assert_eq!(ctx.status_row(), "/abc\x1b[7;5H");
    ctx.search_cursor_left();
    ctx.search_cursor_left();
    assert_eq!(ctx.status_row(), "/abc\x1b[7;3H");
    ctx.search_delete_char();
    assert_eq!(ctx.status_row(), "/ac\x1b[7;3H");
    ctx.search_push_char('é');
    assert_eq!(ctx.status_row(), "/aéc\x1b[7;4H");
}

#[test]
fn status_row_of_each_mode() {
    let mut source = Source::of(&["a"]);
    let mut ctx = Context::new(10, 3, Some(String::from("notes.txt")));
    assert_eq!(ctx.status_row(), "\x1b[38;5;0m\x1b[48;5;15mnotes.txt\x1b[39m\x1b[49m");
    ctx.switch_to_normal_mode();
    assert_eq!(ctx.status_row(), ":");
    let step = ctx.scroll_down_line();
    run(&mut ctx, &mut source, step);
    assert_eq!(ctx.status_row(), "\x1b[38;5;0m\x1b[48;5;15m(END)\x1b[39m\x1b[49m");
    ctx.switch_to_search_mode();
    ctx.search_push_char('q');
    assert_eq!(ctx.status_row(), "/q\x1b[3;3H");
}

#[test]
fn cursor_row_and_column_are_written_in_decimal() {
    let mut ctx = Context::new(200, 1234, None);
    ctx.switch_to_search_mode();
    for _ in 0..98 {
        ctx.search_push_char('x');
    }
    let expected = format!("/{}\x1b[1234;100H", "x".repeat(98));
    assert_eq!(ctx.status_row(), expected);
}

#[test]
fn frame_draws_rows_and_status() {
    let mut source = Source::of(&["ab", "cdefg", "h"]);
    let mut ctx = Context::new(4, 3, Some(String::from("f.txt")));
    let step = ctx.fill_buffer();
    run(&mut ctx, &mut source, step);
    assert_eq!(
        ctx.render(),
        "\x1b[1;1H\x1b[2Kab\n\r\x1b[2Kcdef\n\r\x1b[2K\x1b[38;5;0m\x1b[48;5;15mf.txt\x1b[39m\x1b[49m"
    );
    let step = ctx.scroll_down_line();
    run(&mut ctx, &mut source, step);
    assert_eq!(ctx.render(), "\x1b[1;1H\x1b[2Kcdef\n\r\x1b[2Kg\n\r\x1b[2K:");
}

#[test]
fn frame_of_an_empty_pager() {
    let ctx = Context::new(4, 3, None);
    assert_eq!(ctx.render(), "\x1b[1;1H\x1b[2K:");
    assert_eq!(ctx.lines(), Vec::<&str>::new());
}
