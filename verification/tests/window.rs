use ash::vk;
use infinigpu::gpu::commands::{Command, Size};
use infinigpu::gpu::scratch::{frame_image_slots, Scratch, Slot};
use infinigpu::gpu::steps::Step;
use infinigpu::viewer::stream::{CursorShape, DecodedFrame};
use infinigpu::viewer::window::{
    cursor_toggle, image_count, keeps_image, pick_format, pick_output, pick_present_mode,
    plan_frame_image, record_picture, swapchain_extent, CursorKey, FrameImage, Output, Overlay,
    Pointer, SurfaceCaps, SwapNext, SwapResult, Swapchain,
};
use std::sync::Arc;

fn output(graphics: bool, presents: bool, discrete: bool) -> Output {
    Output { graphics, presents, discrete }
}

fn size(width: u32, height: u32) -> Size {
    Size { width, height }
}

#[test]
fn a_discrete_gpu_is_taken_before_others() {
    assert_eq!(pick_output(&[]), None);
    assert_eq!(pick_output(&[output(true, false, true), output(false, true, true)]), None);
    let onboard = output(true, true, false);
    let card = output(true, true, true);
    assert_eq!(pick_output(&[onboard, onboard]), Some(0));
    assert_eq!(pick_output(&[output(true, false, true), onboard, card, card]), Some(2));
    assert_eq!(pick_output(&[card, onboard]), Some(0));
}

fn caps(current: Size) -> SurfaceCaps {
    SurfaceCaps {
        current,
        min: size(10, 20),
        max: size(100, 200),
        min_images: 2,
        max_images: 0,
    }
}

#[test]
fn the_surface_decides_its_size_or_leaves_it() {
    assert_eq!(swapchain_extent(&caps(size(640, 480)), size(1, 1)), Some(size(640, 480)));
    let free = caps(size(u32::MAX, u32::MAX));
    assert_eq!(swapchain_extent(&free, size(1, 1)), Some(size(10, 20)));
    assert_eq!(swapchain_extent(&free, size(50, 500)), Some(size(50, 200)));
    assert_eq!(swapchain_extent(&caps(size(0, 480)), size(1, 1)), None);
    assert_eq!(swapchain_extent(&caps(size(640, 0)), size(1, 1)), None);
}

#[test]
fn one_image_more_than_the_fewest() {
    let mut c = caps(size(1, 1));
    assert_eq!(image_count(&c), 3);
    c.max_images = 2;
    assert_eq!(image_count(&c), 2);
    c.max_images = 8;
    assert_eq!(image_count(&c), 3);
}

#[test]
fn the_frames_own_format_is_preferred() {
    let bgra = vk::Format::B8G8R8A8_UNORM.as_raw();
    assert_eq!(pick_format(&[37, bgra, bgra]), 1);
    assert_eq!(pick_format(&[37, 50]), 0);
}

#[test]
fn the_lowest_latency_is_preferred() {
    let (immediate, mailbox, fifo) = (
        vk::PresentModeKHR::IMMEDIATE.as_raw(),
        vk::PresentModeKHR::MAILBOX.as_raw(),
        vk::PresentModeKHR::FIFO.as_raw(),
    );
    assert_eq!(pick_present_mode(&[fifo, immediate, mailbox]), mailbox);
    assert_eq!(pick_present_mode(&[fifo, immediate]), immediate);
    assert_eq!(pick_present_mode(&[fifo]), fifo);
    assert_eq!(pick_present_mode(&[]), fifo);
}

#[test]
fn the_system_cursor_goes_when_a_shape_comes() {
    assert_eq!(cursor_toggle(false, false), None);
    assert_eq!(cursor_toggle(true, false), Some(false));
    assert_eq!(cursor_toggle(true, true), None);
    assert_eq!(cursor_toggle(false, true), Some(true));
}

#[test]
fn a_swapchain_is_made_anew_when_it_no_longer_fits() {
    let mut s = Swapchain::new(0, 7);
    assert!(s.dirty && !s.can_draw());
    assert_eq!(s.want, size(1, 7));
    s.remade(size(640, 480));
    assert!(!s.dirty && s.can_draw());
    assert_eq!(s.acquired(SwapResult::Fine), SwapNext::GoOn);
    assert!(!s.dirty);
    assert_eq!(s.acquired(SwapResult::Failed), SwapNext::Fail);
    assert!(!s.dirty);
    assert_eq!(s.acquired(SwapResult::Suboptimal), SwapNext::GoOn);
    assert!(s.dirty);
    s.remade(size(640, 480));
    assert_eq!(s.acquired(SwapResult::OutOfDate), SwapNext::Skip);
    assert!(s.dirty);
    for r in [SwapResult::Suboptimal, SwapResult::OutOfDate] {
        s.remade(size(640, 480));
        assert_eq!(s.presented(r), SwapNext::GoOn);
        assert!(s.dirty);
    }
    s.remade(size(640, 480));
    assert_eq!(s.presented(SwapResult::Fine), SwapNext::GoOn);
    assert_eq!(s.presented(SwapResult::Failed), SwapNext::Fail);
    assert!(!s.dirty);
    s.mark_dirty(3, 0);
    assert!(s.dirty);
    assert_eq!((s.want, s.extent), (size(3, 1), size(640, 480)));
}

fn shape() -> Option<Arc<CursorShape>> {
    Some(Arc::new(CursorShape {
        bgra: vec![10, 20, 30, 255],
        w: 1,
        h: 1,
        hot_x: 1,
        hot_y: 0,
        premultiplied: true,
    }))
}

fn frame() -> DecodedFrame {
    DecodedFrame {
        rgba: vec![1, 2, 3, 0, 4, 5, 6, 0],
        width: 2,
        height: 1,
        seq: 0,
        keyframe: true,
    }
}

#[test]
fn a_frame_is_composed_only_when_something_changed() {
    let mut o = Overlay::new();
    let at = |x| Some(Pointer { x, y: 0 });
    assert!(o.follow(false, false, None, 0, None));
    assert!(!o.follow(false, false, None, 0, None));
    assert!(o.follow(true, false, None, 0, None));
    assert!(o.follow(false, true, shape(), 1, at(1)));
    assert!(!o.follow(false, true, shape(), 1, at(1)));
    assert!(o.follow(false, true, shape(), 1, at(2)));
    assert!(o.follow(false, false, shape(), 1, at(2)));
    assert!(o.follow(false, true, shape(), 2, at(2)));
    assert!(o.follow(false, true, shape(), 2, None));
    assert_eq!(
        o.cursor_key(at(5)),
        CursorKey { x: 4, y: 0, version: 2, drawn: true }
    );
    assert_eq!(
        o.cursor_key(None),
        CursorKey { x: i64::MIN, y: i64::MIN, version: 2, drawn: false }
    );
}

#[test]
fn a_moved_cursor_leaves_no_trace() {
    let mut o = Overlay::new();
    let whole = Some(size(2, 1));
    assert!(!o.compose(whole, None, &mut []));
    o.ingest(&frame());
    o.follow(true, true, shape(), 1, Some(Pointer { x: 1, y: 0 }));
    let mut dst = vec![0; 8];
    assert!(!o.compose(None, None, &mut dst));
    assert!(!o.compose(Some(size(1, 2)), None, &mut dst));
    assert_eq!(dst, vec![0; 8]);
    assert!(o.compose(whole, Some(Pointer { x: 1, y: 0 }), &mut dst));
    assert_eq!(dst, vec![10, 20, 30, 255, 6, 5, 4, 255]);
    assert!(o.compose(whole, Some(Pointer { x: 2, y: 0 }), &mut dst));
    assert_eq!(dst, vec![3, 2, 1, 255, 10, 20, 30, 255]);
    assert!(o.compose(whole, None, &mut dst));
    assert_eq!(dst, vec![3, 2, 1, 255, 6, 5, 4, 255]);
    o.follow(false, false, shape(), 1, None);
    assert!(o.compose(whole, Some(Pointer { x: 1, y: 0 }), &mut dst));
    assert_eq!(dst, vec![3, 2, 1, 255, 6, 5, 4, 255]);
}

#[test]
fn the_frame_image_is_kept_while_its_size_fits() {
    let f = FrameImage { size: size(4, 3), initialized: true, pending: false };
    assert!(keeps_image(Some(f), 4, 3));
    assert!(!keeps_image(Some(f), 3, 4));
    assert!(!keeps_image(None, 4, 3));
}

#[test]
fn the_plan_of_a_frame_image() {
    let plan = plan_frame_image(4, 3);
    assert_eq!(plan.len(), 7);
    assert_eq!(
        plan[0],
        Step::Image {
            into: Slot::Image,
            format: vk::Format::B8G8R8A8_UNORM.as_raw(),
            width: 4,
            height: 3,
            usage: (vk::ImageUsageFlags::TRANSFER_DST | vk::ImageUsageFlags::TRANSFER_SRC).as_raw(),
        }
    );
    assert_eq!(
        plan[3],
        Step::Buffer {
            into: Slot::Staging,
            size: 48,
            usage: vk::BufferUsageFlags::TRANSFER_SRC.as_raw(),
            handle_type: 0,
        }
    );
    assert_eq!(
        plan[4],
        Step::Memory {
            into: Slot::StagingMem,
            object: Slot::Staging,
            flags: (vk::MemoryPropertyFlags::HOST_VISIBLE
                | vk::MemoryPropertyFlags::HOST_COHERENT)
                .as_raw(),
            handle_type: 0,
        }
    );
    assert_eq!(plan[6], Step::MapMemory { memory: Slot::StagingMem, size: 48 });

    let mut sc = Scratch::new();
    sc.put(Slot::Image, 1);
    sc.put(Slot::ImageMem, 2);
    sc.put(Slot::Staging, 3);
    let freed: Vec<u64> = sc.teardown(&frame_image_slots()).iter().map(|r| r.handle).collect();
    assert_eq!(freed, vec![3, 1, 2]);
}

#[test]
fn a_picture_without_a_frame_is_the_background() {
    let mut image = None;
    let cmds = record_picture(&mut image, size(640, 480));
    assert_eq!(cmds.len(), 3);
    match cmds[1] {
        Command::ClearImage { color, .. } => assert_eq!(
            color,
            [0.02f32.to_bits(), 0.02f32.to_bits(), 0.03f32.to_bits(), 1.0f32.to_bits()]
        ),
        _ => panic!("a clear was expected"),
    }
    assert!(image.is_none());
}

#[test]
fn a_pending_frame_is_uploaded_once() {
    let mut image = Some(FrameImage { size: size(4, 3), initialized: false, pending: true });
    let cmds = record_picture(&mut image, size(640, 480));
    assert_eq!(cmds.len(), 6);
    let layouts = |c: &Command| match c {
        Command::Barrier { old_layout, new_layout, .. } => (*old_layout, *new_layout),
        _ => panic!("a barrier was expected"),
    };
    let (undefined, dst, src, present) = (
        vk::ImageLayout::UNDEFINED.as_raw(),
        vk::ImageLayout::TRANSFER_DST_OPTIMAL.as_raw(),
        vk::ImageLayout::TRANSFER_SRC_OPTIMAL.as_raw(),
        vk::ImageLayout::PRESENT_SRC_KHR.as_raw(),
    );
    assert_eq!(layouts(&cmds[0]), (undefined, dst));
    assert_eq!(layouts(&cmds[2]), (dst, src));
    assert_eq!(layouts(&cmds[3]), (undefined, dst));
    assert_eq!(layouts(&cmds[5]), (dst, present));
    match cmds[4] {
        Command::Blit { src_width, src_height, dst_width, dst_height, filter, .. } => {
            assert_eq!((src_width, src_height, dst_width, dst_height), (4, 3, 640, 480));
            assert_eq!(filter, vk::Filter::LINEAR.as_raw());
        }
        _ => panic!("a blit was expected"),
    }
    assert_eq!(image, Some(FrameImage { size: size(4, 3), initialized: true, pending: false }));
    assert_eq!(record_picture(&mut image, size(640, 480)).len(), 3);
    image = Some(FrameImage { size: size(4, 3), initialized: true, pending: true });
    assert_eq!(layouts(&record_picture(&mut image, size(640, 480))[0]), (src, dst));
}
