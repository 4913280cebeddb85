use triversi::board::{Board, Player};
use triversi::board_display::paragraph_board::{Cell, CellStyle, MAX_DISTANCE};
use triversi::board_display::{BoardDisplay, ParagraphBoard, PlayerMark};
use triversi::error::TriversiError;
use triversi::game::Play;

fn text(lines: &Vec<Vec<Cell>>) -> Vec<String> {
    lines.iter().map(|l| l.iter().map(|c| c.symbol).collect()).collect()
}

#[test]
fn distances_outside_two_to_ten_are_refused() {
    assert_eq!(MAX_DISTANCE, 10);
    assert_eq!(
        ParagraphBoard::try_new(1, "a,b,c").err().unwrap(),
        TriversiError::InvalidBoardDistance(1)
    );
    assert_eq!(
        ParagraphBoard::try_new(11, "a,b,c").err().unwrap(),
        TriversiError::InvalidBoardDistance(11)
    );
    assert!(ParagraphBoard::try_new(2, "a,b,c").is_ok());
    assert!(ParagraphBoard::try_new(10, "a,b,c").is_ok());
}

#[test]
fn marks_need_three_names_starting_with_ascii() {
    assert_eq!(
        ParagraphBoard::try_new(3, "a,b").err().unwrap(),
        TriversiError::InvalidStringForPlayerMarks("a,b".to_string())
    );
    assert_eq!(
        ParagraphBoard::try_new(3, "a,,c").err().unwrap(),
        TriversiError::InvalidStringForPlayerMarks("a,,c".to_string())
    );
    assert_eq!(
        ParagraphBoard::try_new(3, "\u{e9}t\u{e9},b,c").err().unwrap(),
        TriversiError::InvalidStringForPlayerMarks("\u{e9}t\u{e9},b,c".to_string())
    );
    let m = PlayerMark::try_from("Cyan,Magenta,Yellow".to_string()).unwrap();
    assert_eq!((m.0, m.1, m.2), ('C', 'M', 'Y'));
    assert!(PlayerMark::try_from("x,y,z,w".to_string()).is_err());
}

#[test]
fn the_display_keeps_the_names() {
    let d = ParagraphBoard::try_new(3, "Cyan,Magenta,Yellow").unwrap();
    assert_eq!(d.player_name(Player::Zero), "Cyan");
    assert_eq!(d.player_name(Player::Two), "Yellow");
    assert_eq!(d.distance(), 3);
    assert_eq!(d.offset(), (0, 0));
    assert!(!d.frame_visibility());
}

#[test]
fn scrolling_and_zooming() {
    let mut d = ParagraphBoard::try_new(3, "a,b,c").unwrap();
    d.scroll_right();
    d.scroll_up();
    d.scroll_up();
    assert_eq!(d.offset(), (-1, 2));
    assert_eq!(d.scroll_label(), "-1, 2");
    d.scroll_left();
    d.scroll_down();
    assert_eq!(d.offset(), (0, 1));
    d.scroll_reset();
    assert_eq!(d.offset(), (0, 0));
    assert_eq!(d.zoom_label(), "3");
    for _ in 0..10 {
        d.zoom_in();
    }
    assert_eq!(d.distance(), 10);
    assert_eq!(d.zoom_label(), "10");
    for _ in 0..10 {
        d.zoom_out();
    }
    assert_eq!(d.distance(), 2);
    d.toggle_frame_visibility();
    assert!(d.frame_visibility());
    d.toggle_frame_visibility();
    assert!(!d.frame_visibility());
}

#[test]
fn picture_of_the_starting_board_without_frames() {
    let d = ParagraphBoard::try_new(2, "Cyan,Magenta,Yellow").unwrap();
    let board = Board::try_new(5).unwrap();
    let pic = d.board_view(&board, Play::Turn, Player::Zero, (1, 3));
    assert_eq!(
        text(&pic.lines),
        vec![
            "        .        ",
            "                 ",
            "      M   Y      ",
            "                 ",
            "    Y   C   M    ",
            "                 ",
            "  C   M   Y   C  ",
            "                 ",
            ".   Y   C   M   .",
        ]
    );
    assert_eq!(pic.scroll, (0, 0));
    assert_eq!(pic.border, Some(Player::Zero));
    let plain = CellStyle { color: None, bold_underlined: false, reversed: false };
    assert_eq!(pic.lines[0][8].style, plain);
    assert_eq!(
        pic.lines[6][2].style,
        CellStyle { color: Some(Player::Zero), bold_underlined: true, reversed: false }
    );
    assert_eq!(
        pic.lines[6][6].style,
        CellStyle { color: Some(Player::One), bold_underlined: false, reversed: true }
    );
    assert_eq!(pic.lines[6][4].style, plain);
}

#[test]
fn picture_of_the_starting_board_with_frames_and_offset() {
    let mut d = ParagraphBoard::try_new(3, "Cyan,Magenta,Yellow").unwrap();
    d.toggle_frame_visibility();
    d.scroll_left();
    d.scroll_up();
    let board = Board::try_new(5).unwrap();
    let pic = d.board_view(&board, Play::History, Player::One, (0, 0));
    assert_eq!(
        text(&pic.lines),
        vec![
            "",
            "",
            "",
            "                            ",
            "              / \\           ",
            "             /   \\          ",
            "            M --- Y         ",
            "           / \\   / \\        ",
            "          /   \\ /   \\       ",
            "         Y --- C --- M      ",
            "        / \\   / \\   / \\     ",
            "       /   \\ /   \\ /   \\    ",
            "      C --- M --- Y --- C   ",
            "     / \\   / \\   / \\   / \\  ",
            "    /   \\ /   \\ /   \\ /   \\ ",
            "     --- Y --- C --- M ---  ",
        ]
    );
    assert_eq!(pic.border, None);
    assert_eq!(pic.scroll, (0, 0));
}

#[test]
fn scrolling_right_moves_the_picture() {
    let mut d = ParagraphBoard::try_new(2, "a,b,c").unwrap();
    d.scroll_right();
    d.scroll_down();
    let board = Board::try_new(5).unwrap();
    let pic = d.board_view(&board, Play::Finished, Player::Two, (0, 0));
    assert_eq!(pic.scroll, (2, 2));
    assert_eq!(pic.lines.len(), 9);
    assert_eq!(pic.border, None);
    let plain = CellStyle { color: None, bold_underlined: false, reversed: false };
    assert_eq!(pic.lines[8][0].style, plain);
    assert_eq!(pic.lines[6][2].style.color, Some(Player::Zero));
}
