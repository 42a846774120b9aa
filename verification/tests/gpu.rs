use ash::vk as raw;
use ash::vk::AccessFlags as A;
use ash::vk::BufferUsageFlags as B;
use ash::vk::CompareOp as C;
use ash::vk::Format as F;
use ash::vk::ImageLayout as L;
use ash::vk::ImageUsageFlags as I;
use ash::vk::PipelineStageFlags as S;
use infinigpu::gpu::bounded::{Bounded, ImportKey, TargetKey};
use infinigpu::gpu::memory::{
    find_mem, find_readback_mem, import_size, zerocopy_alignment_ok, ImportError, HOST_MEMORY,
};
use infinigpu::gpu::scratch::{
    convert_slots, render_slots, target_slots, texture_slots, Release, Scratch, Slot,
};
use infinigpu::gpu::vk;

#[test]
fn the_numbers_are_vulkans() {
    for (ours, theirs) in [
        (vk::FORMAT_R8G8B8A8_UNORM, F::R8G8B8A8_UNORM.as_raw()),
        (vk::FORMAT_B8G8R8A8_UNORM, F::B8G8R8A8_UNORM.as_raw()),
        (vk::FORMAT_R32_UINT, F::R32_UINT.as_raw()),
        (vk::FORMAT_R32_SFLOAT, F::R32_SFLOAT.as_raw()),
        (vk::FORMAT_R32G32_SFLOAT, F::R32G32_SFLOAT.as_raw()),
        (vk::FORMAT_R32G32B32_SFLOAT, F::R32G32B32_SFLOAT.as_raw()),
        (vk::FORMAT_R32G32B32A32_SFLOAT, F::R32G32B32A32_SFLOAT.as_raw()),
        (vk::FORMAT_D32_SFLOAT, F::D32_SFLOAT.as_raw()),
        (vk::TOPOLOGY_TRIANGLE_LIST, raw::PrimitiveTopology::TRIANGLE_LIST.as_raw()),
        (vk::TOPOLOGY_TRIANGLE_STRIP, raw::PrimitiveTopology::TRIANGLE_STRIP.as_raw()),
        (vk::COMPARE_NEVER, C::NEVER.as_raw()),
        (vk::COMPARE_LESS, C::LESS.as_raw()),
        (vk::COMPARE_EQUAL, C::EQUAL.as_raw()),
        (vk::COMPARE_LESS_OR_EQUAL, C::LESS_OR_EQUAL.as_raw()),
        (vk::COMPARE_GREATER, C::GREATER.as_raw()),
        (vk::COMPARE_NOT_EQUAL, C::NOT_EQUAL.as_raw()),
        (vk::COMPARE_GREATER_OR_EQUAL, C::GREATER_OR_EQUAL.as_raw()),
        (vk::COMPARE_ALWAYS, C::ALWAYS.as_raw()),
        (vk::FRONT_FACE_CCW, raw::FrontFace::COUNTER_CLOCKWISE.as_raw()),
        (vk::FRONT_FACE_CW, raw::FrontFace::CLOCKWISE.as_raw()),
        (vk::LAYOUT_UNDEFINED, L::UNDEFINED.as_raw()),
        (vk::LAYOUT_COLOR_ATTACHMENT, L::COLOR_ATTACHMENT_OPTIMAL.as_raw()),
        (vk::LAYOUT_DEPTH_ATTACHMENT, L::DEPTH_STENCIL_ATTACHMENT_OPTIMAL.as_raw()),
        (vk::LAYOUT_SHADER_READ_ONLY, L::SHADER_READ_ONLY_OPTIMAL.as_raw()),
        (vk::LAYOUT_TRANSFER_SRC, L::TRANSFER_SRC_OPTIMAL.as_raw()),
        (vk::LAYOUT_TRANSFER_DST, L::TRANSFER_DST_OPTIMAL.as_raw()),
        (vk::LAYOUT_PRESENT_SRC, L::PRESENT_SRC_KHR.as_raw()),
        (vk::LOAD_CLEAR, raw::AttachmentLoadOp::CLEAR.as_raw()),
        (vk::LOAD_DONT_CARE, raw::AttachmentLoadOp::DONT_CARE.as_raw()),
        (vk::STORE_STORE, raw::AttachmentStoreOp::STORE.as_raw()),
        (vk::STORE_DONT_CARE, raw::AttachmentStoreOp::DONT_CARE.as_raw()),
        (vk::DESCRIPTOR_SAMPLER, raw::DescriptorType::SAMPLER.as_raw()),
        (vk::DESCRIPTOR_SAMPLED_IMAGE, raw::DescriptorType::SAMPLED_IMAGE.as_raw()),
        (vk::DESCRIPTOR_UNIFORM_BUFFER, raw::DescriptorType::UNIFORM_BUFFER.as_raw()),
        (vk::DESCRIPTOR_STORAGE_BUFFER, raw::DescriptorType::STORAGE_BUFFER.as_raw()),
        (vk::FILTER_NEAREST, raw::Filter::NEAREST.as_raw()),
        (vk::FILTER_LINEAR, raw::Filter::LINEAR.as_raw()),
        (vk::ADDRESS_REPEAT, raw::SamplerAddressMode::REPEAT.as_raw()),
        (vk::ADDRESS_CLAMP_TO_EDGE, raw::SamplerAddressMode::CLAMP_TO_EDGE.as_raw()),
        (vk::INDEX_UINT16, raw::IndexType::UINT16.as_raw()),
        (vk::INDEX_UINT32, raw::IndexType::UINT32.as_raw()),
        (vk::DEVICE_DISCRETE_GPU, raw::PhysicalDeviceType::DISCRETE_GPU.as_raw()),
        (vk::DRIVER_AMD_PROPRIETARY, raw::DriverId::AMD_PROPRIETARY.as_raw()),
        (vk::DRIVER_AMD_OPEN_SOURCE, raw::DriverId::AMD_OPEN_SOURCE.as_raw()),
        (vk::DRIVER_MESA_RADV, raw::DriverId::MESA_RADV.as_raw()),
        (vk::DRIVER_NVIDIA_PROPRIETARY, raw::DriverId::NVIDIA_PROPRIETARY.as_raw()),
        (
            vk::DRIVER_INTEL_PROPRIETARY_WINDOWS,
            raw::DriverId::INTEL_PROPRIETARY_WINDOWS.as_raw(),
        ),
        (vk::DRIVER_INTEL_OPEN_SOURCE_MESA, raw::DriverId::INTEL_OPEN_SOURCE_MESA.as_raw()),
        (vk::DRIVER_MESA_LLVMPIPE, raw::DriverId::MESA_LLVMPIPE.as_raw()),
        (vk::PRESENT_IMMEDIATE, raw::PresentModeKHR::IMMEDIATE.as_raw()),
        (vk::PRESENT_MAILBOX, raw::PresentModeKHR::MAILBOX.as_raw()),
        (vk::PRESENT_FIFO, raw::PresentModeKHR::FIFO.as_raw()),
    ] {
        assert_eq!(ours, theirs);
    }
    for (ours, theirs) in [
        (vk::CULL_NONE, raw::CullModeFlags::NONE.as_raw()),
        (vk::CULL_FRONT, raw::CullModeFlags::FRONT.as_raw()),
        (vk::CULL_BACK, raw::CullModeFlags::BACK.as_raw()),
        (vk::CULL_FRONT_AND_BACK, raw::CullModeFlags::FRONT_AND_BACK.as_raw()),
        (vk::IMAGE_TRANSFER_SRC, I::TRANSFER_SRC.as_raw()),
        (vk::IMAGE_TRANSFER_DST, I::TRANSFER_DST.as_raw()),
        (vk::IMAGE_SAMPLED, I::SAMPLED.as_raw()),
        (vk::IMAGE_COLOR_ATTACHMENT, I::COLOR_ATTACHMENT.as_raw()),
        (vk::IMAGE_DEPTH_ATTACHMENT, I::DEPTH_STENCIL_ATTACHMENT.as_raw()),
        (vk::BUFFER_TRANSFER_SRC, B::TRANSFER_SRC.as_raw()),
        (vk::BUFFER_TRANSFER_DST, B::TRANSFER_DST.as_raw()),
        (vk::BUFFER_UNIFORM, B::UNIFORM_BUFFER.as_raw()),
        (vk::BUFFER_STORAGE, B::STORAGE_BUFFER.as_raw()),
        (vk::BUFFER_INDEX, B::INDEX_BUFFER.as_raw()),
        (vk::BUFFER_VERTEX, B::VERTEX_BUFFER.as_raw()),
        (vk::ASPECT_COLOR, raw::ImageAspectFlags::COLOR.as_raw()),
        (vk::ASPECT_DEPTH, raw::ImageAspectFlags::DEPTH.as_raw()),
        (vk::STAGE_TOP_OF_PIPE, S::TOP_OF_PIPE.as_raw()),
        (vk::STAGE_FRAGMENT_SHADER, S::FRAGMENT_SHADER.as_raw()),
        (vk::STAGE_EARLY_FRAGMENT_TESTS, S::EARLY_FRAGMENT_TESTS.as_raw()),
        (vk::STAGE_LATE_FRAGMENT_TESTS, S::LATE_FRAGMENT_TESTS.as_raw()),
        (vk::STAGE_COLOR_ATTACHMENT_OUTPUT, S::COLOR_ATTACHMENT_OUTPUT.as_raw()),
        (vk::STAGE_TRANSFER, S::TRANSFER.as_raw()),
        (vk::STAGE_ALL_COMMANDS, S::ALL_COMMANDS.as_raw()),
        (vk::ACCESS_SHADER_READ, A::SHADER_READ.as_raw()),
        (vk::ACCESS_COLOR_ATTACHMENT_WRITE, A::COLOR_ATTACHMENT_WRITE.as_raw()),
        (vk::ACCESS_DEPTH_ATTACHMENT_WRITE, A::DEPTH_STENCIL_ATTACHMENT_WRITE.as_raw()),
        (vk::ACCESS_TRANSFER_READ, A::TRANSFER_READ.as_raw()),
        (vk::ACCESS_TRANSFER_WRITE, A::TRANSFER_WRITE.as_raw()),
        (vk::ACCESS_MEMORY_READ, A::MEMORY_READ.as_raw()),
        (vk::ACCESS_MEMORY_WRITE, A::MEMORY_WRITE.as_raw()),
        (vk::SUBPASS_OUTSIDE, raw::SUBPASS_EXTERNAL),
        (vk::SHADER_VERTEX, raw::ShaderStageFlags::VERTEX.as_raw()),
        (vk::SHADER_FRAGMENT, raw::ShaderStageFlags::FRAGMENT.as_raw()),
        (vk::MEMORY_DEVICE_LOCAL, raw::MemoryPropertyFlags::DEVICE_LOCAL.as_raw()),
        (vk::MEMORY_HOST_VISIBLE, raw::MemoryPropertyFlags::HOST_VISIBLE.as_raw()),
        (vk::MEMORY_HOST_COHERENT, raw::MemoryPropertyFlags::HOST_COHERENT.as_raw()),
        (vk::MEMORY_HOST_CACHED, raw::MemoryPropertyFlags::HOST_CACHED.as_raw()),
        (vk::HANDLE_OPAQUE_FD, raw::ExternalMemoryHandleTypeFlags::OPAQUE_FD.as_raw()),
        (vk::HANDLE_DMA_BUF, raw::ExternalMemoryHandleTypeFlags::DMA_BUF_EXT.as_raw()),
        (
            vk::HANDLE_HOST_ALLOCATION,
            raw::ExternalMemoryHandleTypeFlags::HOST_ALLOCATION_EXT.as_raw(),
        ),
        (vk::QUEUE_GRAPHICS, raw::QueueFlags::GRAPHICS.as_raw()),
    ] {
        assert_eq!(ours, theirs);
    }
    assert_eq!(HOST_MEMORY, vk::MEMORY_HOST_VISIBLE | vk::MEMORY_HOST_COHERENT);
}

#[test]
fn the_first_memory_type_that_suits_is_taken() {
    let types = [1, 6, 14, 1];
    assert_eq!(find_mem(&types, 0b1111, 1), Some(0));
    assert_eq!(find_mem(&types, 0b1110, 1), Some(3));
    assert_eq!(find_mem(&types, 0b1111, 6), Some(1));
    assert_eq!(find_mem(&types, 0b1111, 16), None);
    assert_eq!(find_mem(&types, 0, 0), None);
    assert_eq!(find_mem(&[], u32::MAX, 0), None);
}

#[test]
fn readback_prefers_cached_memory() {
    assert_eq!(find_readback_mem(&[6, 10, 14], 0b111), Some((2, true)));
    assert_eq!(find_readback_mem(&[6, 10, 14], 0b011), Some((1, false)));
    assert_eq!(find_readback_mem(&[6, 10, 14], 0b001), Some((0, true)));
    assert_eq!(find_readback_mem(&[1, 2], 0b11), None);
}

#[test]
fn imports_are_aligned_and_rounded_up() {
    assert_eq!(import_size(false, 0, 1, 4096), Err(ImportError::Unsupported));
    assert_eq!(import_size(true, 4097, 1, 4096), Err(ImportError::Misaligned));
    assert_eq!(import_size(true, 8192, 1, 4096), Ok(4096));
    assert_eq!(import_size(true, 8192, 4096, 4096), Ok(4096));
    assert_eq!(import_size(true, 8192, 4097, 4096), Ok(8192));
    assert_eq!(import_size(true, 7, 5, 0), Ok(5));
    assert!(zerocopy_alignment_ok(4096) && zerocopy_alignment_ok(1));
    assert!(!zerocopy_alignment_ok(0) && !zerocopy_alignment_ok(8192));
}

#[test]
fn a_stopped_piece_of_work_gives_back_what_it_made() {
    let mut sc = Scratch::new();
    assert!(sc.teardown(&render_slots()).is_empty());
    sc.put(Slot::ImageMem, 1);
    sc.put(Slot::Image, 2);
    sc.put(Slot::View, 3);
    sc.put(Slot::Framebuffer, 4);
    sc.put(Slot::RenderPass, 5);
    assert_eq!(sc.get(Slot::View), 3);
    assert_eq!(sc.get(Slot::Fence), 0);
    let out: Vec<Slot> = sc.teardown(&render_slots()).iter().map(|r| r.slot).collect();
    assert_eq!(
        out,
        vec![Slot::Framebuffer, Slot::RenderPass, Slot::View, Slot::Image, Slot::ImageMem]
    );
    sc.disarm();
    assert!(sc.teardown(&render_slots()).is_empty());
    sc.put(Slot::Staging, 9);
    assert_eq!(
        sc.teardown(&convert_slots()),
        vec![Release { slot: Slot::Staging, handle: 9 }]
    );
    assert!(sc.teardown(&target_slots()).is_empty());
    assert_eq!(sc.teardown(&texture_slots()).len(), 1);
}

#[test]
fn a_full_cache_gives_up_all_it_holds() {
    let key = |width| TargetKey { width, height: 1, with_depth: false };
    let mut c: Bounded<TargetKey> = Bounded::new(2);
    assert!(c.make_room().is_empty());
    c.put(key(1), 11);
    assert!(c.make_room().is_empty());
    c.put(key(2), 22);
    assert_eq!((c.get(&key(1)), c.get(&key(2)), c.get(&key(3))), (Some(11), Some(22), None));
    assert_eq!(c.make_room(), vec![11, 22]);
    assert_eq!(c.get(&key(1)), None);
    c.put(key(3), 33);
    assert_eq!(c.get(&TargetKey { with_depth: true, ..key(3) }), None);
    assert_eq!(c.drain(), vec![33]);
    assert!(c.drain().is_empty());
    let mut imports: Bounded<ImportKey> = Bounded::new(1);
    imports.put(ImportKey { address: 4096, size: 16 }, 5);
    assert_eq!(imports.get(&ImportKey { address: 4096, size: 16 }), Some(5));
    assert_eq!(imports.get(&ImportKey { address: 4096, size: 17 }), None);
}
