//! The reducer on decoded actions, and agreement between the crate's own
//! byte tokenizer and the vte tokenizer on plain streams.

use julix::action::Action;
use julix::terminal::Terminal;
use vte::{Params, Parser, Perform};

#[test]
fn actions_drive_the_reducer_directly() {
    let mut t = Terminal::new(5, 3);
    t.apply_action(Action::Print('h'));
    t.apply_action(Action::Print('i'));
    t.apply_action(Action::Execute(0x0d));
    t.apply_action(Action::Execute(0x0a));
    t.apply_action(Action::Csi(vec![2, 3], b'H'));
    assert_eq!((t.cursor.x, t.cursor.y), (2, 1));
    assert_eq!(t.grid[0][0].c, 'h');
    assert_eq!(t.grid[0][1].c, 'i');
    t.apply_action(Action::Osc);
    t.apply_action(Action::Esc);
    assert_eq!((t.cursor.x, t.cursor.y), (2, 1));
}

/// Collects the first value of each vte parameter group into the crate's
/// own action type.
struct Collector {
    actions: Vec<Action>,
}

impl Perform for Collector {
    fn print(&mut self, c: char) {
        self.actions.push(Action::Print(c));
    }

    fn execute(&mut self, byte: u8) {
        self.actions.push(Action::Execute(byte));
    }

    fn csi_dispatch(&mut self, params: &Params, _intermediates: &[u8], _ignore: bool, action: char) {
        let ps: Vec<u16> = params.iter().map(|p| p.first().copied().unwrap_or(0)).collect();
        self.actions.push(Action::Csi(ps, action as u8));
    }

    fn osc_dispatch(&mut self, _params: &[&[u8]], _bell_terminated: bool) {
        self.actions.push(Action::Osc);
    }

    fn esc_dispatch(&mut self, _intermediates: &[u8], _ignore: bool, _byte: u8) {
        self.actions.push(Action::Esc);
    }
}

#[test]
fn tokenizer_agrees_with_vte_on_plain_streams() {
    let streams: [&[u8]; 4] = [
        b"Hello\r\nworld\tmore",
        b"\x1b[2;3HX\x1b[1J\x1b[0K\x1b[2J",
        b"\x1b[31;44mcolor\x1b[38;5;196m!\x1b[38;2;1;2;3m?\x1b[m.",
        "caf\u{e9} \u{20ac} \u{10348}\x1b]0;title\x07done\r\n".as_bytes(),
    ];
    for stream in streams {
        let mut direct = Terminal::new(12, 5);
        direct.feed_bytes(stream);

        let mut collector = Collector { actions: Vec::new() };
        let mut parser = Parser::new();
        parser.advance(&mut collector, stream);
        let mut replayed = Terminal::new(12, 5);
        for a in collector.actions {
            replayed.apply_action(a);
        }

        assert_eq!(direct.grid, replayed.grid);
        assert_eq!(direct.cursor, replayed.cursor);
    }
}
