use playastation::devices::gpu::cmd::{LinePacket, PolygonPacket, RectPacket, Remain};
use playastation::devices::gpu::types::{Clut, Color, Position, Size, UV};

#[test]
fn polygon_word_counts() {
    let cases = [
        (0x2000_0000u32, 3usize),
        (0x3000_0000, 5),
        (0x2400_0000, 6),
        (0x3400_0000, 8),
        (0x2800_0000, 4),
        (0x3800_0000, 7),
        (0x2C00_0000, 8),
        (0x3C00_0000, 11),
    ];
    for (cmd, words) in cases {
        let (p, more) = PolygonPacket::init(cmd | 0x0030_2010);
        assert_eq!(more, Remain::Count(words));
        if p.gouraud {
            assert_eq!(p.color, None);
        } else {
            assert_eq!(p.color, Some(Color { r: 0x10, g: 0x20, b: 0x30 }));
        }
    }
}

#[test]
fn polygon_takes_its_words() {
    let (mut p, _) = PolygonPacket::init(0x3800_0000);
    for w in 0..7u32 {
        p.push_cmd(w);
    }
    assert!(p.quad && p.gouraud && !p.textured);
}

#[test]
fn line_word_counts() {
    assert_eq!(LinePacket::init(0x4000_0000).1, Remain::Count(2));
    assert_eq!(LinePacket::init(0x5000_0000).1, Remain::Count(3));
    assert_eq!(LinePacket::init(0x4800_0000).1, Remain::Terminator(0x5000_5000));
    let (mut l, _) = LinePacket::init(0x5800_00FF);
    assert!(l.gouraud);
    assert_eq!(l.color, None);
    l.push_cmd(0x0001_0002);
    l.push_cmd(0x0000_FF00);
}

#[test]
fn rect_takes_position_texture_and_size() {
    let (r, more) = RectPacket::init(0x6000_0102);
    assert_eq!(more, Remain::Count(2));
    assert_eq!(r.size, None);
    assert_eq!(r.color, Color { r: 2, g: 1, b: 0 });

    let (r, more) = RectPacket::init(0x6800_0000);
    assert_eq!(more, Remain::Count(1));
    assert_eq!(r.size, Some(Size { w: 1, h: 1 }));
    assert_eq!(RectPacket::init(0x7000_0000).0.size, Some(Size { w: 8, h: 8 }));
    assert_eq!(RectPacket::init(0x7800_0000).0.size, Some(Size { w: 16, h: 16 }));

    let (mut r, more) = RectPacket::init(0x6400_0000);
    assert_eq!(more, Remain::Count(3));
    r.push_cmd(0xFFFF_0003);
    assert_eq!(r.pos, Some(Position { x: 3, y: -1 }));
    // The texture word gives the texture coordinates and the CLUT.
    r.push_cmd(0x7FC5_5678);
    assert_eq!(r.uv, Some(UV { u: 0x78, v: 0x56 }));
    assert_eq!(r.clut, Some(Clut { x: 0x5 * 16, y: 0x1FF }));
    assert_eq!(r.size, None);
    r.push_cmd(0x0008_0004);
    assert_eq!(r.size, Some(Size { w: 4, h: 8 }));

    let (mut r, _) = RectPacket::init(0x6400_0000);
    r.push_cmd(0x0020_0010);
    r.push_cmd(0x0000_0000);
    r.push_cmd(0x0008_0004);
    assert_eq!(r.pos, Some(Position { x: 16, y: 32 }));
    assert_eq!(r.size, Some(Size { w: 4, h: 8 }));

    let (mut r, _) = RectPacket::init(0x6000_0000);
    r.push_cmd(0x0000_0000);
    r.push_cmd(0x0020_0010);
    assert_eq!(r.size, Some(Size { w: 0x10, h: 0x20 }));
}
