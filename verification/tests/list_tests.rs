use rab::tui::components::list::{render_list, MdBlock, MdList, MdListItem};
use rab::tui::theme::Style;

fn para(t: &str) -> MdBlock {
    MdBlock::Paragraph(t.to_string())
}

fn item(blocks: Vec<MdBlock>) -> MdListItem {
    MdListItem { task: None, blocks }
}

#[test]
fn bulleted_items() {
    let l = MdList { ordered: false, start: 1, items: vec![item(vec![para("one")]), item(vec![para("two")])] };
    assert_eq!(render_list(&l, 40, 0, &Style::new()), vec!["- one".to_string(), "- two".to_string()]);
}

#[test]
fn numbered_items_with_task_boxes() {
    let l = MdList {
        ordered: true,
        start: 3,
        items: vec![
            MdListItem { task: Some(true), blocks: vec![para("done")] },
            MdListItem { task: Some(false), blocks: vec![para("open")] },
        ],
    };
    assert_eq!(render_list(&l, 40, 0, &Style::new()), vec!["3. [x] done".to_string(), "4. [ ] open".to_string()]);
    // a start of 0 counts from 1
    let z = MdList { ordered: true, start: 0, items: vec![item(vec![para("a")])] };
    assert_eq!(render_list(&z, 40, 0, &Style::new()), vec!["1. a".to_string()]);
}

#[test]
fn nested_list_is_indented() {
    let inner = MdList { ordered: false, start: 1, items: vec![item(vec![para("b")])] };
    let l = MdList { ordered: false, start: 1, items: vec![item(vec![para("a"), MdBlock::List(inner), para("c")])] };
    assert_eq!(
        render_list(&l, 40, 0, &Style::new()),
        vec!["- a".to_string(), "    - b".to_string(), "  c".to_string()]
    );
}

#[test]
fn long_paragraph_wraps_beside_the_marker() {
    let l = MdList { ordered: false, start: 1, items: vec![item(vec![para("alpha beta gamma")])] };
    assert_eq!(
        render_list(&l, 10, 0, &Style::new()),
        vec!["- alpha ".to_string(), "  beta ".to_string(), "  gamma".to_string()]
    );
}

#[test]
fn empty_item_and_other_lines() {
    let l = MdList {
        ordered: false,
        start: 1,
        items: vec![item(vec![]), item(vec![MdBlock::Lines(vec!["x".to_string(), "y".to_string()])])],
    };
    assert_eq!(
        render_list(&l, 40, 0, &Style::new()),
        vec!["- ".to_string(), "- x".to_string(), "  y".to_string()]
    );
}

#[test]
fn bullet_style_wraps_the_marker() {
    let l = MdList { ordered: false, start: 1, items: vec![item(vec![para("a")])] };
    assert_eq!(render_list(&l, 40, 0, &Style::new().bold()), vec!["\x1b[1m- \x1b[22ma".to_string()]);
}
