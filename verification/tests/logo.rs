use tdk::logo::{Bounds, Logo, Point, BITMAP};

#[test]
fn letters_are_centred_and_wallpaper_fills_the_rest() {
    let (lw, lh) = Logo::letters_size();
    let (w, h) = (80, 23);
    let y0 = (h - lh) / 2;
    let x0 = (w - lw) / 2;
    // A row above the block is plain wallpaper.
    let mut buf = turbo_vision::core::draw::DrawBuffer::new(w);
    Logo::render_row(w, h, y0 - 1, &mut buf);
    assert!((0..w).all(|x| buf.data[x].ch == '░'));
    // The first letter row starts with the top bar of the T.
    let mut buf = turbo_vision::core::draw::DrawBuffer::new(w);
    Logo::render_row(w, h, y0, &mut buf);
    assert_eq!(buf.data[x0].ch, '█');
    assert_eq!(buf.data[x0 - 1].ch, '░');
}

#[test]
fn a_desktop_too_small_for_the_letters_shows_only_wallpaper() {
    let mut buf = turbo_vision::core::draw::DrawBuffer::new(20);
    Logo::render_row(20, 5, 2, &mut buf);
    assert!((0..20).all(|x| buf.data[x].ch == '░'));
}

#[test]
fn the_bitmap_rows_share_one_width_and_their_count_is_even() {
    assert_eq!(BITMAP.len() % 2, 0);
    assert!(BITMAP.iter().all(|row| row.len() == 116));
    assert_eq!(Logo::letters_size(), (58, 18));
}

#[test]
fn the_block_is_centred_on_an_80_by_23_desktop() {
    // (80 - 58) / 2 = 11 columns of wallpaper on the left, 11 on the right;
    // (23 - 18) / 2 = 2 rows above, 3 below.
    let mut above = turbo_vision::core::draw::DrawBuffer::new(80);
    Logo::render_row(80, 23, 1, &mut above);
    assert!(above.data.iter().all(|c| c.ch == '░'));
    let mut below = turbo_vision::core::draw::DrawBuffer::new(80);
    Logo::render_row(80, 23, 20, &mut below);
    assert!(below.data.iter().all(|c| c.ch == '░'));
    let mut first = turbo_vision::core::draw::DrawBuffer::new(80);
    Logo::render_row(80, 23, 2, &mut first);
    assert!((0..11).all(|x| first.data[x].ch == '░'));
    assert!((69..80).all(|x| first.data[x].ch == '░'));
    assert_eq!(first.data[11].ch, '█');
}

#[test]
fn a_half_inked_group_becomes_a_half_block() {
    // Bitmap rows 0 and 1 hold blanks in columns 34..39 and ink in column 39,
    // so the group at columns 38 and 39 is inked on its right half only.
    let mut buf = turbo_vision::core::draw::DrawBuffer::new(80);
    Logo::render_row(80, 23, 2, &mut buf);
    assert_eq!(buf.data[11 + 19].ch, '▐');
    // The group at columns 34 and 35 is blank: the wallpaper shows.
    assert_eq!(buf.data[11 + 17].ch, '░');
}

#[test]
fn letters_are_navy_on_dark_gray_and_wallpaper_takes_the_desktop_attribute() {
    let mut buf = turbo_vision::core::draw::DrawBuffer::new(80);
    Logo::render_row(80, 23, 2, &mut buf);
    let navy = turbo_vision::core::palette::Attr::new(
        turbo_vision::core::palette::TvColor::Rgb { r: 0, g: 0, b: 96 },
        turbo_vision::core::palette::TvColor::DarkGray,
    );
    assert_eq!(buf.data[11].attr, navy);
    assert_eq!(buf.data[0].attr, turbo_vision::core::palette::colors::DESKTOP);
    assert_eq!(buf.data[11 + 17].attr, turbo_vision::core::palette::colors::DESKTOP);
}

#[test]
fn cells_past_the_desktop_width_keep_what_they_held() {
    let mut buf = turbo_vision::core::draw::DrawBuffer::new(100);
    Logo::render_row(80, 23, 2, &mut buf);
    assert!((80..100).all(|x| buf.data[x].ch == ' '));
    assert!((0..11).all(|x| buf.data[x].ch == '░'));
}

#[test]
fn a_buffer_shorter_than_the_desktop_is_filled_as_far_as_it_reaches() {
    let mut buf = turbo_vision::core::draw::DrawBuffer::new(15);
    Logo::render_row(80, 23, 2, &mut buf);
    assert_eq!(buf.data.len(), 15);
    assert!((0..11).all(|x| buf.data[x].ch == '░'));
    assert_eq!(buf.data[11].ch, '█');
}

#[test]
fn a_desktop_exactly_the_block_size_puts_the_block_at_the_corner() {
    let mut buf = turbo_vision::core::draw::DrawBuffer::new(58);
    Logo::render_row(58, 18, 0, &mut buf);
    assert_eq!(buf.data[0].ch, '█');
    let mut narrow = turbo_vision::core::draw::DrawBuffer::new(57);
    Logo::render_row(57, 18, 0, &mut narrow);
    assert!(narrow.data.iter().all(|c| c.ch == '░'));
}

fn rect(ax: i16, ay: i16, bx: i16, by: i16) -> Bounds {
    Bounds {
        a: Point { x: ax, y: ay },
        b: Point { x: bx, y: by },
    }
}

#[test]
fn a_new_logo_covers_its_bounds_with_no_state() {
    let logo = Logo::new(rect(0, 0, 80, 23));
    assert_eq!(logo.bounds(), rect(0, 0, 80, 23));
    assert_eq!(logo.state(), 0);
    assert!(logo.get_palette_chain().is_none());
}

#[test]
fn setters_change_only_their_own_field() {
    let mut logo = Logo::new(rect(0, 0, 80, 23));
    logo.set_state(0x0001);
    logo.set_bounds(rect(1, 2, 30, 40));
    assert_eq!(logo.state(), 0x0001);
    assert_eq!(logo.bounds(), rect(1, 2, 30, 40));
    logo.set_palette_chain(None);
    assert!(logo.get_palette_chain().is_none());
    assert_eq!(logo.state(), 0x0001);
}

#[test]
fn the_drawn_area_is_the_bounds_clamped_at_zero() {
    assert_eq!(Logo::new(rect(0, 0, 80, 23)).draw_size(), (80, 23));
    assert_eq!(Logo::new(rect(5, 7, 15, 10)).draw_size(), (10, 3));
    assert_eq!(Logo::new(rect(10, 10, 5, 4)).draw_size(), (0, 0));
}

#[test]
fn each_row_is_written_at_the_left_edge_below_the_top() {
    let logo = Logo::new(rect(5, 7, 15, 10));
    assert_eq!(logo.line_origin(0), (5, 7));
    assert_eq!(logo.line_origin(2), (5, 9));
}
