use tapevm::Op;
use tapevm::OpList;

#[test]
fn from_char_maps_each_symbol() {
    assert_eq!(Op::from_char('<'), Op::Left);
    assert_eq!(Op::from_char('>'), Op::Right);
    assert_eq!(Op::from_char('+'), Op::Incr);
    assert_eq!(Op::from_char('-'), Op::Decr);
    assert_eq!(Op::from_char('.'), Op::Out);
    assert_eq!(Op::from_char(','), Op::In);
    assert_eq!(Op::from_char('['), Op::Open);
    assert_eq!(Op::from_char(']'), Op::Close);
}

#[test]
fn to_char_maps_each_op() {
    assert_eq!(Op::Left.to_char(), '<');
    assert_eq!(Op::Right.to_char(), '>');
    assert_eq!(Op::Incr.to_char(), '+');
    assert_eq!(Op::Decr.to_char(), '-');
    assert_eq!(Op::Out.to_char(), '.');
    assert_eq!(Op::In.to_char(), ',');
    assert_eq!(Op::Open.to_char(), '[');
    assert_eq!(Op::Close.to_char(), ']');
}

#[test]
fn char_round_trip() {
    for c in ['<', '>', '+', '-', '.', ',', '[', ']'] {
        assert_eq!(Op::from_char(c).to_char(), c);
    }
}

#[test]
fn op_list_decodes_in_order() {
    let ol = OpList::new("<>+-.,[]");
    assert_eq!(ol.len(), 8);
    assert_eq!(ol.get_at(0), Op::Left);
    assert_eq!(ol.get_at(1), Op::Right);
    assert_eq!(ol.get_at(2), Op::Incr);
    assert_eq!(ol.get_at(3), Op::Decr);
    assert_eq!(ol.get_at(4), Op::Out);
    assert_eq!(ol.get_at(5), Op::In);
    assert_eq!(ol.get_at(6), Op::Open);
    assert_eq!(ol.get_at(7), Op::Close);
}

#[test]
fn op_list_position_starts_at_zero() {
    let mut ol = OpList::new("+++");
    assert_eq!(ol.position(), 0);
    assert_eq!(ol.get(), Op::Incr);
    ol.set_position(2);
    assert_eq!(ol.position(), 2);
    assert_eq!(ol.get(), Op::Incr);
}

#[test]
fn op_list_view_range_middle() {
    // 30 instructions, position 15: ten on each side, both sides clipped
    let src = "+".repeat(30);
    let mut ol = OpList::new(&src);
    ol.set_position(15);
    let (start, end, cut_start, cut_end) = ol.view_range();
    assert_eq!(start, 5);
    assert_eq!(end, 25);
    assert!(cut_start);
    assert!(cut_end);
}

#[test]
fn op_list_view_range_at_edges() {
    let src = "+".repeat(30);
    let mut ol = OpList::new(&src);
    let (start, end, cut_start, cut_end) = ol.view_range();
    assert_eq!(start, 0);
    assert_eq!(end, 10);
    assert!(!cut_start);
    assert!(cut_end);
    ol.set_position(29);
    let (start, end, cut_start, cut_end) = ol.view_range();
    assert_eq!(start, 19);
    assert_eq!(end, 29);
    assert!(cut_start);
    assert!(!cut_end);
}
