use piccolo::history::{ColorKey, HistoryPage, HistoryUpdate, PiccoloHistory};

fn key(h: u32, s: u32, v: u32) -> ColorKey {
    ColorKey { h, s, v }
}

#[test]
fn new_history_is_empty() {
    let h = PiccoloHistory::new();
    assert!(h.recent_colors().is_empty());
    assert_eq!(HistoryPage::Empty.name(), "empty");
    assert_eq!(HistoryPage::Content.name(), "content");
}

#[test]
fn add_chip_keeps_each_color_once() {
    let mut h = PiccoloHistory::new();
    let a = key(1, 2, 3);
    let b = key(4, 5, 6);
    assert_eq!(
        h.add_chip(&a),
        HistoryUpdate { changed: true, show: Some(HistoryPage::Content) }
    );
    assert_eq!(
        h.add_chip(&b),
        HistoryUpdate { changed: true, show: Some(HistoryPage::Content) }
    );
    assert_eq!(h.add_chip(&a), HistoryUpdate { changed: false, show: None });
    assert_eq!(h.recent_colors(), vec![a, b]);
    assert!(h.contains(&a));
    assert!(!h.contains(&key(0, 0, 0)));
}

#[test]
fn remove_chip_takes_the_color_away() {
    let mut h = PiccoloHistory::new();
    let a = key(1, 2, 3);
    let b = key(4, 5, 6);
    let c = key(7, 8, 9);
    h.add_chip(&a);
    h.add_chip(&b);
    h.add_chip(&c);
    assert_eq!(h.remove_chip(&b), HistoryUpdate { changed: true, show: None });
    assert_eq!(h.recent_colors(), vec![a, c]);
    assert_eq!(h.remove_chip(&b), HistoryUpdate { changed: false, show: None });
    assert_eq!(h.remove_chip(&a), HistoryUpdate { changed: true, show: None });
    assert_eq!(
        h.remove_chip(&c),
        HistoryUpdate { changed: true, show: Some(HistoryPage::Empty) }
    );
    assert!(h.recent_colors().is_empty());
}

#[test]
fn remove_after_add_restores_history() {
    let mut h = PiccoloHistory::new();
    h.add_chip(&key(1, 1, 1));
    h.add_chip(&key(2, 2, 2));
    let before = h.recent_colors();
    h.add_chip(&key(3, 3, 3));
    h.remove_chip(&key(3, 3, 3));
    assert_eq!(h.recent_colors(), before);
}

#[test]
fn shown_page_follows_emptiness() {
    let mut h = PiccoloHistory::new();
    let mut shown = HistoryPage::Empty;
    let steps: Vec<(bool, ColorKey)> = vec![
        (true, key(1, 0, 0)),
        (true, key(2, 0, 0)),
        (true, key(1, 0, 0)),
        (false, key(1, 0, 0)),
        (false, key(9, 0, 0)),
        (false, key(2, 0, 0)),
        (true, key(3, 0, 0)),
    ];
    for (add, k) in steps {
        let u = if add { h.add_chip(&k) } else { h.remove_chip(&k) };
        if let Some(p) = u.show {
            shown = p;
        }
        let expected = if h.recent_colors().is_empty() {
            HistoryPage::Empty
        } else {
            HistoryPage::Content
        };
        assert_eq!(shown, expected);
    }
}

fn bits(h: f32, s: f32, v: f32) -> ColorKey {
    ColorKey { h: h.to_bits(), s: s.to_bits(), v: v.to_bits() }
}

#[test]
fn colors_compare_as_floats() {
    assert!(bits(0.0, 0.5, 1.0).same_as(&bits(-0.0, 0.5, 1.0)));
    assert!(!bits(f32::NAN, 0.5, 1.0).same_as(&bits(f32::NAN, 0.5, 1.0)));
    assert!(!bits(1.0, 0.5, 1.0).same_as(&bits(2.0, 0.5, 1.0)));

    let mut h = PiccoloHistory::new();
    assert!(h.add_chip(&bits(0.0, 0.5, 1.0)).changed);
    assert!(!h.add_chip(&bits(-0.0, 0.5, 1.0)).changed);
    assert!(h.remove_chip(&bits(-0.0, 0.5, 1.0)).changed);
    assert!(h.recent_colors().is_empty());
}

#[test]
fn nan_colors_are_saved_again_and_never_removed() {
    let mut h = PiccoloHistory::new();
    let nan = bits(120.0, f32::NAN, 0.0);
    assert!(h.add_chip(&nan).changed);
    assert!(h.add_chip(&nan).changed);
    assert_eq!(h.recent_colors().len(), 2);
    assert!(!h.contains(&nan));
    assert_eq!(h.remove_chip(&nan), HistoryUpdate { changed: false, show: None });
    assert_eq!(h.recent_colors().len(), 2);
}
