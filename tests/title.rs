use hexcat::paint::Painter;
use hexcat::terminal::Size;
use hexcat::title::{push_decimal, Title};

#[test]
fn title_rows() {
    let title = Title::new("192.168.1.20", 443);
    let rows = title.paint(Size { width: 60, height: 3 });
    assert_eq!(rows.len(), 3);
    let banner: String = rows[0].iter().collect();
    let mut expected = String::from("HexCat. Connected to 192.168.1.20 (on port 443).");
    while expected.chars().count() < 60 {
        expected.push(' ');
    }
    assert_eq!(banner, expected);
    let divider: String = rows[1].iter().collect();
    let mut expected_divider = String::from("────────┬");
    while expected_divider.chars().count() < 60 {
        expected_divider.push('─');
    }
    assert_eq!(divider, expected_divider);
    assert_eq!(rows[2], vec![' '; 60]);
}

#[test]
fn narrow_title_is_cut() {
    let title = Title::new("::1", 9);
    let rows = title.paint(Size { width: 6, height: 2 });
    assert_eq!(rows[0].iter().collect::<String>(), "HexCat");
    assert_eq!(rows[1].iter().collect::<String>(), "──────");
}

#[test]
fn decimal_ports() {
    for (port, text) in [(0u16, "0"), (7, "7"), (10, "10"), (8080, "8080"), (65535, "65535")] {
        let mut out = vec!['x'];
        push_decimal(&mut out, port);
        assert_eq!(out.iter().collect::<String>(), format!("x{}", text));
    }
}
