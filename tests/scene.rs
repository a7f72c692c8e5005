use librgss::graphics::frame_wait;
use librgss::window::{SKIN_HEIGHT, SKIN_WIDTH};
use librgss::{
    ArenaError, Arenas, Bitmap, DrawableRef, Graphics, LoadError, Quad, Rect, Table, Viewport, ViewportData, Window, Z,
    ZList,
};

fn setup() -> (Arenas, Graphics) {
    let mut arenas = Arenas::new();
    let graphics = Graphics::new(&mut arenas, 0);
    (arenas, graphics)
}

fn root_children(graphics: &Graphics, arenas: &Arenas) -> Vec<(Z, DrawableRef)> {
    graphics.global_viewport().children(arenas).unwrap()
}

#[test]
fn zlist_iterates_ascending_whatever_the_insertion_order() {
    let mut list: ZList<u32> = ZList::new();
    list.insert(Z::new(5, 1), 10);
    list.insert(Z::new(0, 3), 20);
    list.insert(Z::new(0, 2), 30);
    list.insert(Z::new(-4, 9), 40);
    list.insert(Z::new(5, 0), 50);
    let order: Vec<u32> = list.iter().iter().map(|e| e.1).collect();
    assert_eq!(order, vec![40, 30, 20, 50, 10]);
    assert_eq!(list.remove(Z::new(0, 2)), Some(30));
    assert_eq!(list.remove(Z::new(0, 2)), None);
    list.insert(Z::new(0, 7), 60);
    let order: Vec<u32> = list.iter().iter().map(|e| e.1).collect();
    assert_eq!(order, vec![40, 20, 60, 50, 10]);
    assert_eq!(list.len(), 5);
}

#[test]
fn zlist_get_and_get_mut() {
    let mut list: ZList<u32> = ZList::new();
    list.insert(Z::new(1, 1), 7);
    assert_eq!(list.get(Z::new(1, 1)), Some(&7));
    assert_eq!(list.get(Z::new(1, 2)), None);
    if let Some(v) = list.get_mut(Z::new(1, 1)) {
        *v = 8;
    }
    assert_eq!(list.get(Z::new(1, 1)), Some(&8));
    assert!(list.get_mut(Z::new(2, 1)).is_none());
}

#[test]
fn zlist_retain_keeps_order_of_survivors() {
    let mut list: ZList<u32> = ZList::new();
    for i in 0..6u64 {
        list.insert(Z::new((6 - i) as i32, i), i as u32);
    }
    list.retain(|_, v| v % 2 == 0);
    let order: Vec<u32> = list.iter().iter().map(|e| e.1).collect();
    assert_eq!(order, vec![4, 2, 0]);
    list.retain(|_, _| true);
    assert_eq!(list.len(), 3);
    list.retain(|_, _| false);
    assert_eq!(list.len(), 0);
}

#[test]
fn z_keys_order_by_priority_then_creation() {
    let a = Z::new(0, 5);
    let b = Z::new(0, 6);
    let c = Z::new(-1, 100);
    assert!(a.precedes(&b));
    assert!(!b.precedes(&a));
    assert!(c.precedes(&a));
    assert!(!a.precedes(&a));
    let moved = a.update_value(3);
    assert_eq!(moved.value(), 3);
    assert_eq!(moved.creation_time(), 5);
}

#[test]
fn reprioritising_siblings_keeps_creation_order() {
    let (mut arenas, graphics) = setup();
    let w1 = Window::new(&graphics, &mut arenas, None).unwrap();
    let w2 = Window::new(&graphics, &mut arenas, None).unwrap();
    let w3 = Window::new(&graphics, &mut arenas, None).unwrap();
    w2.set_z(&mut arenas, 5).unwrap();
    w1.set_z(&mut arenas, 5).unwrap();
    let order: Vec<DrawableRef> = root_children(&graphics, &arenas).iter().map(|e| e.1).collect();
    assert_eq!(order, vec![DrawableRef::Window(w3), DrawableRef::Window(w1), DrawableRef::Window(w2)]);
    w1.set_z(&mut arenas, 0).unwrap();
    w2.set_z(&mut arenas, 0).unwrap();
    let order: Vec<DrawableRef> = root_children(&graphics, &arenas).iter().map(|e| e.1).collect();
    assert_eq!(order, vec![DrawableRef::Window(w1), DrawableRef::Window(w2), DrawableRef::Window(w3)]);
    assert_eq!(w1.z(&arenas), Ok(0));
}

#[test]
fn two_windows_then_reprioritise_first() {
    let (mut arenas, graphics) = setup();
    assert_eq!(graphics.global_viewport().rect(&arenas), Ok(Rect::new(0, 0, 640, 480)));
    let w1 = Window::new(&graphics, &mut arenas, None).unwrap();
    let w2 = Window::new(&graphics, &mut arenas, None).unwrap();
    assert_eq!(w1.z(&arenas), Ok(0));
    assert_eq!(w2.z(&arenas), Ok(0));
    let order: Vec<DrawableRef> = root_children(&graphics, &arenas).iter().map(|e| e.1).collect();
    assert_eq!(order, vec![DrawableRef::Window(w1), DrawableRef::Window(w2)]);
    w1.set_z(&mut arenas, 5).unwrap();
    let order: Vec<DrawableRef> = root_children(&graphics, &arenas).iter().map(|e| e.1).collect();
    assert_eq!(order, vec![DrawableRef::Window(w2), DrawableRef::Window(w1)]);
    assert_eq!(w1.z(&arenas), Ok(5));
}

#[test]
fn set_z_to_same_priority_changes_nothing() {
    let (mut arenas, graphics) = setup();
    let w1 = Window::new(&graphics, &mut arenas, None).unwrap();
    let before = root_children(&graphics, &arenas);
    w1.set_z(&mut arenas, 0).unwrap();
    assert_eq!(root_children(&graphics, &arenas), before);
}

#[test]
fn reparent_there_and_back_restores_the_entry() {
    let (mut arenas, graphics) = setup();
    let other = Viewport::new(&graphics, &mut arenas, 10, 20, 100, 50).unwrap();
    let w0 = Window::new(&graphics, &mut arenas, None).unwrap();
    let w = Window::new(&graphics, &mut arenas, None).unwrap();
    let w2 = Window::new(&graphics, &mut arenas, None).unwrap();
    let before = root_children(&graphics, &arenas);
    w.set_viewport(&graphics, &mut arenas, Some(other)).unwrap();
    assert_eq!(w.viewport(&graphics, &arenas), Ok(Some(other)));
    let moved: Vec<DrawableRef> = other.children(&arenas).unwrap().iter().map(|e| e.1).collect();
    assert_eq!(moved, vec![DrawableRef::Window(w)]);
    let left: Vec<DrawableRef> = root_children(&graphics, &arenas).iter().map(|e| e.1).collect();
    assert_eq!(left, vec![DrawableRef::Viewport(other), DrawableRef::Window(w0), DrawableRef::Window(w2)]);
    w.set_viewport(&graphics, &mut arenas, None).unwrap();
    assert_eq!(w.viewport(&graphics, &arenas), Ok(None));
    assert_eq!(root_children(&graphics, &arenas), before);
    assert_eq!(other.children(&arenas).unwrap(), vec![]);
}

#[test]
fn reparent_to_current_viewport_is_a_no_op() {
    let (mut arenas, graphics) = setup();
    let w = Window::new(&graphics, &mut arenas, None).unwrap();
    let before = root_children(&graphics, &arenas);
    w.set_viewport(&graphics, &mut arenas, None).unwrap();
    w.set_viewport(&graphics, &mut arenas, Some(graphics.global_viewport())).unwrap();
    assert_eq!(root_children(&graphics, &arenas), before);
}

#[test]
fn disposed_window_is_not_found() {
    let (mut arenas, graphics) = setup();
    let w = Window::new(&graphics, &mut arenas, None).unwrap();
    let keep = Window::new(&graphics, &mut arenas, None).unwrap();
    assert!(w.get_data(&arenas).is_some());
    w.dispose(&mut arenas).unwrap();
    assert!(w.get_data(&arenas).is_none());
    assert!(w.get_data_mut(&mut arenas).is_none());
    assert_eq!(w.z(&arenas), Err(ArenaError::NotFound));
    assert_eq!(w.set_z(&mut arenas, 3), Err(ArenaError::NotFound));
    assert_eq!(w.viewport(&graphics, &arenas), Err(ArenaError::NotFound));
    assert_eq!(w.dispose(&mut arenas), Err(ArenaError::NotFound));
    let order: Vec<DrawableRef> = root_children(&graphics, &arenas).iter().map(|e| e.1).collect();
    assert_eq!(order, vec![DrawableRef::Window(keep)]);
    // the freed slot is reused under a new version: the old handle stays stale
    let fresh = Window::new(&graphics, &mut arenas, None).unwrap();
    assert_ne!(fresh, w);
    assert!(w.get_data(&arenas).is_none());
    assert!(fresh.get_data(&arenas).is_some());
}

#[test]
fn window_in_missing_viewport_is_not_found() {
    let (mut arenas, graphics) = setup();
    let missing = Viewport { key: slotmap::DefaultKey::default() };
    assert_eq!(Window::new(&graphics, &mut arenas, Some(missing)).err(), Some(ArenaError::NotFound));
    let w = Window::new(&graphics, &mut arenas, None).unwrap();
    assert_eq!(w.set_viewport(&graphics, &mut arenas, Some(missing)), Err(ArenaError::NotFound));
    assert_eq!(w.viewport(&graphics, &arenas), Ok(None));
    assert_eq!(missing.rect(&arenas), Err(ArenaError::NotFound));
    assert_eq!(missing.children(&arenas).err(), Some(ArenaError::NotFound));
}

#[test]
fn disjoint_borrow_of_one_viewport_is_aliased() {
    let (mut arenas, graphics) = setup();
    let root = graphics.global_viewport();
    assert_eq!(arenas.viewport_pair_mut(root.key, root.key).err(), Some(ArenaError::Aliased));
    let other = Viewport::new(&graphics, &mut arenas, 0, 0, 8, 8).unwrap();
    assert!(arenas.viewport_pair_mut(root.key, other.key).is_ok());
}

#[test]
fn duplicate_key_in_a_viewport_is_refused() {
    let mut data = ViewportData::new(Rect::new(0, 0, 4, 4), Z::new(0, 0));
    let (mut arenas, graphics) = setup();
    let w = Window::new(&graphics, &mut arenas, None).unwrap();
    assert_eq!(data.insert(Z::new(1, 1), DrawableRef::Window(w)), Ok(()));
    assert_eq!(data.insert(Z::new(1, 1), DrawableRef::Window(w)), Err(ArenaError::DuplicateZ));
    assert_eq!(data.update_z(Z::new(9, 9), Z::new(1, 1)), Err(ArenaError::DuplicateZ));
    assert_eq!(data.update_z(Z::new(1, 1), Z::new(2, 1)), Ok(()));
    assert_eq!(data.children(), vec![(Z::new(2, 1), DrawableRef::Window(w))]);
    assert_eq!(data.remove(Z::new(2, 1)), Some(DrawableRef::Window(w)));
    assert_eq!(data.remove(Z::new(2, 1)), None);
}

#[test]
fn swap_refuses_a_taken_key() {
    let (mut arenas, graphics) = setup();
    let w = Window::new(&graphics, &mut arenas, None).unwrap();
    let mut a = ViewportData::new(Rect::new(0, 0, 4, 4), Z::new(0, 0));
    let mut b = ViewportData::new(Rect::new(0, 0, 4, 4), Z::new(0, 1));
    a.insert(Z::new(0, 5), DrawableRef::Window(w)).unwrap();
    b.insert(Z::new(0, 5), DrawableRef::Window(w)).unwrap();
    assert_eq!(a.swap(&mut b, Z::new(0, 5)), Err(ArenaError::DuplicateZ));
    b.remove(Z::new(0, 5));
    assert_eq!(a.swap(&mut b, Z::new(0, 5)), Ok(()));
    assert_eq!(a.children(), vec![]);
    assert_eq!(b.children(), vec![(Z::new(0, 5), DrawableRef::Window(w))]);
}

#[test]
fn windowskin_quad_spans_the_whole_texture() {
    let (mut arenas, graphics) = setup();
    let skin = Bitmap::new(&mut arenas, 192, 128);
    assert_eq!(skin.width(&arenas), Ok(192));
    assert_eq!(skin.height(&arenas), Ok(128));
    let w = Window::new(&graphics, &mut arenas, None).unwrap();
    w.set_windowskin(&mut arenas, Some(skin)).unwrap();
    let quad = w.get_data(&arenas).unwrap().windowskin.unwrap().quad;
    let verts = quad.into_individual_verts();
    let top_left = verts[0];
    let bottom_right = verts[2];
    assert_eq!((top_left.x, top_left.y), (0, 0));
    assert_eq!((bottom_right.x, bottom_right.y), (SKIN_WIDTH as i64, SKIN_HEIGHT as i64));
    let ratio = |r: librgss::Ratio| r.num as f32 / r.den as f32;
    assert_eq!((ratio(top_left.u), ratio(top_left.v)), (0.0, 0.0));
    assert_eq!((ratio(bottom_right.u), ratio(bottom_right.v)), (1.0, 1.0));
    w.set_windowskin(&mut arenas, None).unwrap();
    assert!(w.get_data(&arenas).unwrap().windowskin.is_none());
}

#[test]
fn windowskin_coordinates_follow_the_bitmap_size() {
    let (mut arenas, graphics) = setup();
    let big = Bitmap::new(&mut arenas, 384, 256);
    let w = Window::new(&graphics, &mut arenas, None).unwrap();
    w.set_windowskin(&mut arenas, Some(big)).unwrap();
    let quad = w.get_data(&arenas).unwrap().windowskin.unwrap().quad;
    let br = quad.into_individual_verts()[2];
    assert_eq!(br.u.num as f32 / br.u.den as f32, 0.5);
    assert_eq!(br.v.num as f32 / br.v.den as f32, 0.5);
}

#[test]
fn quad_triangles_use_the_corners() {
    let quad = Quad { rect: Rect::new(1, 2, 3, 4), tex_coords: Rect::new(0, 0, 2, 2) }.norm_tex_coords(4, 8);
    let c = quad.into_individual_verts();
    assert_eq!((c[1].x, c[1].y), (4, 2));
    assert_eq!((c[3].x, c[3].y), (1, 6));
    assert_eq!((c[1].u.num, c[1].u.den, c[1].v.num, c[1].v.den), (2, 4, 0, 8));
    let t = quad.into_verts();
    assert_eq!(t, [c[0], c[2], c[3], c[0], c[1], c[2]]);
}

#[test]
fn windowskin_of_missing_bitmap_is_not_found() {
    let (mut arenas, graphics) = setup();
    let missing = Bitmap { key: slotmap::DefaultKey::default() };
    let w = Window::new(&graphics, &mut arenas, None).unwrap();
    assert_eq!(w.set_windowskin(&mut arenas, Some(missing)), Err(ArenaError::NotFound));
    assert!(w.get_data(&arenas).unwrap().windowskin.is_none());
    assert_eq!(missing.width(&arenas), Err(ArenaError::NotFound));
}

#[test]
fn frame_pacing_sleeps_the_rest_of_the_frame() {
    assert_eq!(frame_wait(40, 5_000_000), 20_000_000);
    assert_eq!(frame_wait(40, 25_000_000), 0);
    assert_eq!(frame_wait(40, 60_000_000), 0);
    assert_eq!(frame_wait(60, 0), 16_666_666);
    let (_arenas, mut graphics) = {
        let mut arenas = Arenas::new();
        let g = Graphics::new(&mut arenas, 1_000_000_000);
        (arenas, g)
    };
    assert_eq!(graphics.frame_rate(), 40);
    assert_eq!(graphics.frame_wait(1_005_000_000), 20_000_000);
    assert_eq!(graphics.frame_wait(1_100_000_000), 0);
    // a clock reading before the last frame counts as no time passed
    assert_eq!(graphics.frame_wait(0), 25_000_000);
    graphics.frame_done(2_000_000_000);
    graphics.set_frame_rate(20);
    assert_eq!(graphics.frame_wait(2_010_000_000), 40_000_000);
    graphics.set_frame_count(7);
    assert_eq!(graphics.frame_count(), 7);
}

#[test]
fn draw_calls_follow_paint_order_through_nested_viewports() {
    let (mut arenas, graphics) = setup();
    let skin = Bitmap::new(&mut arenas, 192, 128);
    let bare = Window::new(&graphics, &mut arenas, None).unwrap();
    let top = Window::new(&graphics, &mut arenas, None).unwrap();
    let nested = Viewport::new(&graphics, &mut arenas, 5, 6, 70, 80).unwrap();
    let inner = Window::new(&graphics, &mut arenas, Some(nested)).unwrap();
    let low = Window::new(&graphics, &mut arenas, None).unwrap();
    for w in [top, inner, low] {
        w.set_windowskin(&mut arenas, Some(skin)).unwrap();
    }
    top.set_z(&mut arenas, 10).unwrap();
    low.set_z(&mut arenas, -1).unwrap();
    let calls = graphics.draw_calls(&arenas);
    let order: Vec<(Window, Rect)> = calls.iter().map(|c| (c.window, c.viewport_rect)).collect();
    assert_eq!(
        order,
        vec![
            (low, Rect::new(0, 0, 640, 480)),
            (inner, Rect::new(5, 6, 70, 80)),
            (top, Rect::new(0, 0, 640, 480)),
        ]
    );
    assert!(calls.iter().all(|c| c.window != bare));
}

#[test]
fn table_new_is_zeroed_and_sized() {
    let t = Table::new(2, 3, 4);
    assert_eq!((t.xsize(), t.ysize(), t.zsize()), (2, 3, 4));
    assert_eq!(t.len(), 24);
    assert!(!t.is_empty());
    assert!(t.data().iter().all(|v| *v == 0));
    assert!(Table::new(0, 5, 5).is_empty());
}

#[test]
fn table_resize_keeps_the_overlap() {
    let data: Vec<i16> = (0..12).collect();
    let mut t = Table::new_data(2, 3, 2, data);
    assert_eq!(t.get(1, 2, 1), 11);
    assert_eq!(t.get(1, 0, 1), 7);
    t.set(0, 1, 0, -5);
    assert_eq!(t.get(0, 1, 0), -5);
    t.resize(3, 2, 3);
    assert_eq!((t.xsize(), t.ysize(), t.zsize()), (3, 2, 3));
    assert_eq!(t.len(), 18);
    assert_eq!(t.get(0, 0, 0), 0);
    assert_eq!(t.get(1, 0, 0), 1);
    assert_eq!(t.get(0, 1, 0), -5);
    assert_eq!(t.get(1, 1, 1), 9);
    assert_eq!(t.get(2, 1, 1), 0);
    assert_eq!(t.get(0, 0, 2), 0);
    t.resize(1, 1, 1);
    assert_eq!(t.data(), &[0]);
}

#[test]
fn image_bytes_become_a_bitmap() {
    let mut img = image::RgbaImage::new(3, 2);
    img.put_pixel(2, 1, image::Rgba([1, 2, 3, 4]));
    let mut bytes: Vec<u8> = Vec::new();
    img.write_to(&mut std::io::Cursor::new(&mut bytes), image::ImageFormat::Png).unwrap();
    let mut arenas = Arenas::new();
    let (bitmap, pixels) = Bitmap::new_from_image(&mut arenas, &bytes).unwrap();
    assert_eq!(bitmap.width(&arenas), Ok(3));
    assert_eq!(bitmap.height(&arenas), Ok(2));
    assert_eq!(pixels.len(), 24);
    assert_eq!(&pixels[20..24], &[1, 2, 3, 4]);
}

#[test]
fn bad_image_bytes_are_an_error() {
    let mut arenas = Arenas::new();
    assert_eq!(Bitmap::new_from_image(&mut arenas, b"not an image").err(), Some(LoadError::Undecodable));
    assert_eq!(Bitmap::from_decoded(&mut arenas, None).err(), Some(LoadError::Undecodable));
    assert_eq!(Bitmap::from_decoded(&mut arenas, Some((0, 4, vec![]))).err(), Some(LoadError::Empty));
    let (b, px) = Bitmap::from_decoded(&mut arenas, Some((1, 1, vec![9, 9, 9, 9]))).unwrap();
    assert_eq!(b.width(&arenas), Ok(1));
    assert_eq!(px, vec![9, 9, 9, 9]);
}

#[test]
fn table_dump_layout_and_round_trip() {
    let data: Vec<i16> = vec![1, -2, 3, 256, -32768, 32767];
    let t = Table::new_data(3, 2, 1, data.clone());
    let bytes = t.serialize();
    assert_eq!(bytes.len(), 20 + 12);
    assert_eq!(&bytes[0..4], &[3, 0, 0, 0]);
    assert_eq!(&bytes[4..8], &[3, 0, 0, 0]);
    assert_eq!(&bytes[8..12], &[2, 0, 0, 0]);
    assert_eq!(&bytes[12..16], &[1, 0, 0, 0]);
    assert_eq!(&bytes[16..20], &[6, 0, 0, 0]);
    assert_eq!(&bytes[20..24], &[1, 0, 0xfe, 0xff]);
    assert_eq!(&bytes[26..28], &[0, 1]);
    let back = Table::deserialize(&bytes).unwrap();
    assert_eq!((back.xsize(), back.ysize(), back.zsize()), (3, 2, 1));
    assert_eq!(back.data(), &data[..]);
    let flat = Table::new(4, 0, 0).serialize();
    assert_eq!(&flat[0..4], &[1, 0, 0, 0]);
}

#[test]
fn table_load_refuses_malformed_dumps() {
    assert!(Table::deserialize(&[0; 19]).is_none());
    let good = Table::new(2, 2, 1).serialize();
    assert!(Table::deserialize(&good).is_some());
    assert!(Table::deserialize(&good[..good.len() - 1]).is_none());
    let mut wrong_count = good.clone();
    wrong_count[16] = 3;
    assert!(Table::deserialize(&wrong_count).is_none());
    let mut extra = good.clone();
    extra.extend_from_slice(&[0, 0]);
    assert!(Table::deserialize(&extra).is_none());
    let mut huge = vec![0u8; 20];
    huge[4..8].copy_from_slice(&[0xff; 4]);
    huge[8..12].copy_from_slice(&[0xff; 4]);
    huge[12..16].copy_from_slice(&[0xff; 4]);
    assert!(Table::deserialize(&huge).is_none());
}

#[test]
fn fetch_resolves_by_kind() {
    let (mut arenas, graphics) = setup();
    let w = Window::new(&graphics, &mut arenas, None).unwrap();
    let root = DrawableRef::Viewport(graphics.global_viewport());
    assert!(matches!(root.fetch(&arenas), Some(librgss::Drawable::Viewport(_))));
    assert!(matches!(DrawableRef::Window(w).fetch(&arenas), Some(librgss::Drawable::Window(_))));
    if let Some(librgss::DrawableMut::Window(data)) = DrawableRef::Window(w).fetch_mut(&mut arenas) {
        data.active = true;
        data.contents_opacity = 128;
    }
    let data = w.get_data(&arenas).unwrap();
    assert!(data.active);
    assert_eq!(data.contents_opacity, 128);
    w.dispose(&mut arenas).unwrap();
    assert!(DrawableRef::Window(w).fetch(&arenas).is_none());
    assert!(DrawableRef::Window(w).fetch_mut(&mut arenas).is_none());
}

#[test]
fn new_window_defaults() {
    let (mut arenas, graphics) = setup();
    let w = Window::new(&graphics, &mut arenas, None).unwrap();
    let data = w.get_data(&arenas).unwrap();
    assert_eq!(data.rect, Rect::new(0, 0, 0, 0));
    assert_eq!(data.cursor_rect, Rect::new(0, 0, 0, 0));
    assert!(!data.active);
    assert_eq!(data.contents_opacity, 255);
    assert!(data.windowskin.is_none());
    assert_eq!(data.viewport, graphics.global_viewport());
}

#[test]
fn quad_indices_cover_two_triangles() {
    let quad = Quad { rect: Rect::new(0, 0, 1, 1), tex_coords: Rect::new(0, 0, 1, 1) }.norm_tex_coords(1, 1);
    let (verts, indices) = quad.into_verts_indices();
    assert_eq!(indices, [0, 2, 3, 0, 1, 2]);
    assert_eq!(verts, quad.into_individual_verts());
}
