use things_to_check::render::render;
use things_to_check::view::{load_things, SelectError, Thing, Things};

fn strings(raw: &[&str]) -> Vec<String> {
    raw.iter().map(|s| s.to_string()).collect()
}

fn abc() -> Things {
    Things::build(strings(&["**A**", "B", "C"]))
}

#[test]
fn get_returns_entry_by_position() {
    let things = abc();
    let (index, thing) = things.get(1).unwrap();
    assert_eq!(*index, 1);
    assert_eq!(thing.markdown(), "B");
    assert!(!thing.html().contains("**"));
    let (_, first) = things.get(0).unwrap();
    assert!(!first.html().contains("**"));
    assert!(first.html().contains("<strong>A</strong>"));
}

#[test]
fn get_out_of_range_is_none() {
    let things = abc();
    assert!(things.get(3).is_none());
    assert!(things.get(usize::MAX).is_none());
    assert_eq!(things.len(), 3);
    assert!(!things.is_empty());
}

#[test]
fn thing_from_renders_once() {
    let thing = Thing::from("*tip* with `code` and [a link](http://example.com)".to_string());
    assert_eq!(thing.markdown(), "*tip* with `code` and [a link](http://example.com)");
    assert_eq!(
        thing.html(),
        "<p><em>tip</em> with <code>code</code> and <a href=\"http://example.com\">a link</a></p>\n"
    );
}

#[test]
fn render_is_deterministic() {
    let a = render("Is it **plugged in**?");
    let b = render("Is it **plugged in**?");
    assert_eq!(a, b);
    assert_eq!(a, "<p>Is it <strong>plugged in</strong>?</p>\n");
}

#[test]
fn render_empty_text() {
    assert_eq!(render(""), "");
}

#[test]
fn index_stability_on_append() {
    let short = Things::build(strings(&["one", "two"]));
    let long = Things::build(strings(&["one", "two", "three", "four"]));
    for i in 0..short.len() {
        let (a_index, a) = short.get(i).unwrap();
        let (b_index, b) = long.get(i).unwrap();
        assert_eq!(a_index, b_index);
        assert_eq!(a.markdown(), b.markdown());
        assert_eq!(a.html(), b.html());
    }
}

#[test]
fn random_selection_reaches_every_entry() {
    let things = abc();
    let mut seen = [0usize; 3];
    for _ in 0..300 {
        let (index, _) = things.select(None).unwrap();
        seen[*index] += 1;
    }
    assert!(seen.iter().all(|&n| n >= 1));
}

#[test]
fn random_selection_is_roughly_uniform() {
    let things = abc();
    let draws = 30000;
    let mut seen = [0usize; 3];
    for _ in 0..draws {
        let (index, thing) = things.select(None).unwrap();
        assert_eq!(thing.markdown(), things.get(*index).unwrap().1.markdown());
        seen[*index] += 1;
    }
    for n in seen {
        let freq = n as f64 / draws as f64;
        assert!((freq - 1.0 / 3.0).abs() < 0.03, "frequency {}", freq);
    }
}

#[test]
fn explicit_index_out_of_range_is_not_found() {
    let things = abc();
    for _ in 0..50 {
        assert_eq!(things.select(Some(5)).unwrap_err(), SelectError::NotFound);
    }
    assert_eq!(things.select(Some(3)).unwrap_err(), SelectError::NotFound);
}

#[test]
fn explicit_index_selects_that_entry() {
    let things = abc();
    let (index, thing) = things.select(Some(2)).unwrap();
    assert_eq!(*index, 2);
    assert_eq!(thing.markdown(), "C");
}

#[test]
fn empty_catalog_selection() {
    let things = Things::build(Vec::new());
    assert!(things.is_empty());
    assert_eq!(things.len(), 0);
    assert_eq!(things.select(None).unwrap_err(), SelectError::EmptyCatalog);
    assert_eq!(things.select(Some(0)).unwrap_err(), SelectError::NotFound);
    assert_eq!(things.chat_text().unwrap_err(), SelectError::EmptyCatalog);
}

#[test]
fn select_drawn_reduces_the_draw() {
    let things = abc();
    let (index, thing) = things.select_drawn(None, 4).unwrap();
    assert_eq!(*index, 1);
    assert_eq!(thing.markdown(), "B");
    let (index, _) = things.select_drawn(Some(0), 2).unwrap();
    assert_eq!(*index, 0);
    assert_eq!(things.select_drawn(Some(7), 0).unwrap_err(), SelectError::NotFound);
}

#[test]
fn chat_text_is_raw_markdown() {
    let things = Things::build(strings(&["**only**"]));
    for _ in 0..20 {
        assert_eq!(things.chat_text().unwrap(), "**only**");
    }
    assert_eq!(things.chat_text_drawn(9).unwrap(), "**only**");
}

#[test]
fn load_things_reads_yaml_in_order() {
    let things = load_things("- Is it *on*?\n- Check the cable.\n").unwrap();
    assert_eq!(things.len(), 2);
    assert_eq!(things.get(0).unwrap().1.markdown(), "Is it *on*?");
    assert_eq!(things.get(0).unwrap().1.html(), "<p>Is it <em>on</em>?</p>\n");
    assert_eq!(things.get(1).unwrap().1.markdown(), "Check the cable.");
}

#[test]
fn load_things_rejects_non_list() {
    assert!(load_things("key: value\n").is_err());
    assert!(load_things("- [nested, list]\n").is_err());
}
