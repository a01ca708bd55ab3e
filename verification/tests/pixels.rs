use fast_image_resize::Resizer;
use multibg_sway::image::{
    bgra_from_rgb, convert_rows, copy_pad_stride, plan_load, select_pixel_layout,
    swizzle_bgra_from_rgb, write_pixels, BufferLayout, ImageHeader, LoadError, LoadPlan,
    PixelLayout, ShmFormat, Surface,
};
use multibg_sway::wayland::State;

#[test]
fn packed_layout_is_preferred_where_offered() {
    let offered = vec![ShmFormat::Other, ShmFormat::Xrgb8888, ShmFormat::Bgr888];
    let plain = vec![ShmFormat::Xrgb8888, ShmFormat::Other];
    assert_eq!(select_pixel_layout(false, &offered), PixelLayout::Bgr888);
    assert_eq!(select_pixel_layout(true, &offered), PixelLayout::Xrgb8888);
    assert_eq!(select_pixel_layout(false, &plain), PixelLayout::Xrgb8888);
    assert_eq!(select_pixel_layout(false, &Vec::new()), PixelLayout::Xrgb8888);
}

#[test]
fn pixel_format_is_chosen_once() {
    let mut state = State::new(false);
    assert_eq!(state.pixel_format(&vec![ShmFormat::Xrgb8888]), PixelLayout::Xrgb8888);
    assert_eq!(state.pixel_format(&vec![ShmFormat::Bgr888]), PixelLayout::Xrgb8888);
    let mut state = State::new(false);
    assert_eq!(state.pixel_format(&vec![ShmFormat::Bgr888]), PixelLayout::Bgr888);
    assert_eq!(state.pixel_format(&Vec::new()), PixelLayout::Bgr888);
    let mut state = State::new(true);
    assert_eq!(state.pixel_format(&vec![ShmFormat::Bgr888]), PixelLayout::Xrgb8888);
}

#[test]
fn stride_is_padded_to_four_bytes() {
    assert_eq!(
        BufferLayout::new(PixelLayout::Xrgb8888, 1920, 1080),
        Some(BufferLayout { stride: 7680, size: 8294400 })
    );
    assert_eq!(
        BufferLayout::new(PixelLayout::Bgr888, 1920, 1080),
        Some(BufferLayout { stride: 5760, size: 6220800 })
    );
    assert_eq!(
        BufferLayout::new(PixelLayout::Bgr888, 1366, 768),
        Some(BufferLayout { stride: 4100, size: 3148800 })
    );
    assert_eq!(
        BufferLayout::new(PixelLayout::Bgr888, 1, 1),
        Some(BufferLayout { stride: 4, size: 4 })
    );
    assert_eq!(
        BufferLayout::new(PixelLayout::Bgr888, 3, 2),
        Some(BufferLayout { stride: 12, size: 24 })
    );
}

#[test]
fn buffer_layout_has_its_limits() {
    assert_eq!(BufferLayout::new(PixelLayout::Bgr888, 0, 10), None);
    assert_eq!(BufferLayout::new(PixelLayout::Bgr888, 10, 0), None);
    assert_eq!(BufferLayout::new(PixelLayout::Xrgb8888, -1, 10), None);
    assert_eq!(BufferLayout::new(PixelLayout::Xrgb8888, 0x2000_0000, 1), None);
    assert_eq!(
        BufferLayout::new(PixelLayout::Xrgb8888, 0x1fff_ffff, 1),
        Some(BufferLayout { stride: 0x7fff_fffc, size: 0x7fff_fffc })
    );
    assert_eq!(BufferLayout::new(PixelLayout::Bgr888, 0x2aaa_aaaa, 1), None);
    assert_eq!(
        BufferLayout::new(PixelLayout::Bgr888, 0x2aaa_aaa9, 2),
        Some(BufferLayout { stride: 0x7fff_fffc, size: 0xffff_fff8 })
    );
}

#[test]
fn rows_are_copied_with_padding() {
    let src = [1u8, 2, 3, 4, 5, 6];
    let mut dst = [9u8; 8];
    copy_pad_stride(&src, &mut dst, 3, 4, 2);
    assert_eq!(dst, [1, 2, 3, 9, 4, 5, 6, 9]);

    let mut tight = [9u8; 7];
    copy_pad_stride(&src, &mut tight, 3, 4, 2);
    assert_eq!(tight, [1, 2, 3, 9, 4, 5, 6]);

    let mut untouched = [7u8; 5];
    copy_pad_stride(&src, &mut untouched, 3, 4, 0);
    assert_eq!(untouched, [7; 5]);
}

#[test]
fn overlapping_rows_are_copied_in_order() {
    let src = [1u8, 2, 3, 4, 5, 6];
    let mut dst = [0u8; 5];
    copy_pad_stride(&src, &mut dst, 3, 2, 2);
    assert_eq!(dst, [1, 2, 4, 5, 6]);
}

#[test]
fn pixels_are_swizzled() {
    let src = [10u8, 20, 30, 40, 50, 60];
    let mut dst = [0u8; 8];
    swizzle_bgra_from_rgb(&src, &mut dst);
    assert_eq!(dst, [30, 20, 10, 255, 60, 50, 40, 255]);

    let mut partly = [1u8; 9];
    bgra_from_rgb(&src, &mut partly, 1);
    assert_eq!(partly, [30, 20, 10, 255, 1, 1, 1, 1, 1]);

    let mut empty: [u8; 0] = [];
    swizzle_bgra_from_rgb(&[], &mut empty);
}

fn surface(width: u32, height: u32, stride: usize, layout: PixelLayout) -> Surface {
    Surface { width, height, stride, layout }
}

#[test]
fn convert_writes_by_layout() {
    let rgb = [1u8, 2, 3, 4, 5, 6];
    let mut padded = [0u8; 8];
    assert_eq!(convert_rows(&rgb, &mut padded, &surface(1, 2, 4, PixelLayout::Bgr888)), Ok(()));
    assert_eq!(padded, [1, 2, 3, 0, 4, 5, 6, 0]);

    let mut exact = [0u8; 6];
    assert_eq!(convert_rows(&rgb, &mut exact, &surface(2, 1, 6, PixelLayout::Bgr888)), Ok(()));
    assert_eq!(exact, rgb);

    let mut wide = [0u8; 8];
    assert_eq!(convert_rows(&rgb, &mut wide, &surface(2, 1, 8, PixelLayout::Xrgb8888)), Ok(()));
    assert_eq!(wide, [3, 2, 1, 255, 6, 5, 4, 255]);
}

#[test]
fn convert_refuses_wrong_lengths() {
    let rgb = [1u8, 2, 3, 4, 5, 6];
    let mut dst = [0u8; 8];
    assert_eq!(
        convert_rows(&rgb[..5], &mut dst, &surface(1, 2, 4, PixelLayout::Bgr888)),
        Err(LoadError::SourceSize)
    );
    assert_eq!(
        convert_rows(&rgb, &mut dst[..7], &surface(1, 2, 4, PixelLayout::Bgr888)),
        Err(LoadError::DestinationSize)
    );
    assert_eq!(
        convert_rows(&rgb, &mut dst, &surface(2, 1, 5, PixelLayout::Bgr888)),
        Err(LoadError::DestinationSize)
    );
    assert_eq!(
        convert_rows(&rgb, &mut dst, &surface(1, 2, 8, PixelLayout::Xrgb8888)),
        Err(LoadError::DestinationSize)
    );
    assert_eq!(dst, [0; 8]);
}

#[test]
fn image_of_surface_size_is_written_as_it_is() {
    let mut resizer = Resizer::new();
    let rgb = vec![1u8, 2, 3, 4, 5, 6];
    let mut dst = [0u8; 8];
    let done = write_pixels(rgb, 1, 2, &mut dst, &surface(1, 2, 4, PixelLayout::Bgr888), &mut resizer);
    assert_eq!(done, Ok(()));
    assert_eq!(dst, [1, 2, 3, 0, 4, 5, 6, 0]);
}

#[test]
fn image_of_other_size_is_resized() {
    let mut resizer = Resizer::new();
    let rgb: Vec<u8> = [200u8, 100, 50].iter().cycle().take(2 * 2 * 3).cloned().collect();
    let mut dst = [0u8; 4 * 4 * 4];
    let done = write_pixels(
        rgb,
        2,
        2,
        &mut dst,
        &surface(4, 4, 16, PixelLayout::Xrgb8888),
        &mut resizer,
    );
    assert_eq!(done, Ok(()));
    for pixel in dst.chunks(4) {
        assert_eq!(pixel, [50, 100, 200, 255]);
    }

    let rgb: Vec<u8> = [7u8, 8, 9].iter().cycle().take(6 * 4 * 3).cloned().collect();
    let mut dst = [0u8; 2 * 8];
    let done = write_pixels(rgb, 6, 4, &mut dst, &surface(2, 2, 8, PixelLayout::Bgr888), &mut resizer);
    assert_eq!(done, Ok(()));
    assert_eq!(dst, [7, 8, 9, 7, 8, 9, 0, 0, 7, 8, 9, 7, 8, 9, 0, 0]);
}

#[test]
fn write_refuses_before_it_writes() {
    let mut resizer = Resizer::new();
    let mut dst = [0u8; 8];
    let packed = surface(1, 2, 4, PixelLayout::Bgr888);
    assert_eq!(
        write_pixels(vec![1, 2, 3], 0, 1, &mut dst, &packed, &mut resizer),
        Err(LoadError::InvalidDimensions)
    );
    assert_eq!(
        write_pixels(vec![1, 2, 3], 1, 0, &mut dst, &packed, &mut resizer),
        Err(LoadError::InvalidDimensions)
    );
    assert_eq!(
        write_pixels(vec![1, 2, 3], 1, 2, &mut dst, &packed, &mut resizer),
        Err(LoadError::SourceSize)
    );
    assert_eq!(
        write_pixels(vec![1, 2, 3], 1, 1, &mut dst[..6], &packed, &mut resizer),
        Err(LoadError::DestinationSize)
    );
    let mut none: [u8; 0] = [];
    assert_eq!(
        write_pixels(vec![1, 2, 3], 1, 1, &mut none, &surface(0, 2, 0, PixelLayout::Bgr888), &mut resizer),
        Err(LoadError::DestinationSize)
    );
    assert_eq!(dst, [0; 8]);
}

#[test]
fn load_is_planned_from_the_header() {
    let header = |width, height, total_bytes, is_rgb8| ImageHeader { width, height, total_bytes, is_rgb8 };
    let packed = surface(4, 2, 12, PixelLayout::Bgr888);
    let padded = surface(3, 2, 12, PixelLayout::Bgr888);
    let wide = surface(4, 2, 16, PixelLayout::Xrgb8888);
    assert_eq!(plan_load(&header(4, 2, 24, true), &packed, false), Ok(LoadPlan::DecodeInto(24)));
    assert_eq!(
        plan_load(&header(4, 2, 24, true), &packed, true),
        Ok(LoadPlan::Convert { resize: false })
    );
    assert_eq!(
        plan_load(&header(4, 2, 32, false), &packed, false),
        Ok(LoadPlan::Convert { resize: false })
    );
    assert_eq!(
        plan_load(&header(3, 2, 18, true), &padded, false),
        Ok(LoadPlan::Convert { resize: false })
    );
    assert_eq!(
        plan_load(&header(4, 2, 24, true), &wide, false),
        Ok(LoadPlan::Convert { resize: false })
    );
    assert_eq!(
        plan_load(&header(8, 4, 96, true), &packed, false),
        Ok(LoadPlan::Convert { resize: true })
    );
    assert_eq!(
        plan_load(&header(4, 3, 36, true), &packed, false),
        Ok(LoadPlan::Convert { resize: true })
    );
    assert_eq!(plan_load(&header(0, 2, 0, true), &packed, false), Err(LoadError::InvalidDimensions));
    assert_eq!(plan_load(&header(4, 0, 0, true), &packed, false), Err(LoadError::InvalidDimensions));
    assert_eq!(
        plan_load(&header(4, 2, u64::MAX, true), &packed, false),
        Err(LoadError::InvalidDimensions)
    );
}
