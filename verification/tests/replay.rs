use infinigpu::gpu::commands::{Buf, Command, Size};
use infinigpu::gpu::scratch::Slot;
use infinigpu::gpu::steps::Step;
use infinigpu::gpu::vk;
use infinigpu::replay::checks::{
    clear_faults, colours, export_fault, mean, pixel_near, triangle_faults, ExportFault,
};
use infinigpu::replay::descriptors::{
    layout_bindings, plan_descriptors, plan_geometry, plan_texture, pool_sizes, ResourceError,
};
use infinigpu::replay::device::{
    caches_on, caps, choose_features, clear_pass_desc, enabled_extensions, fence_step, flag_on,
    graphics_family, number_setting, pick_device, polls_fence, render_pass_desc,
    supports_zerocopy_scanout, Candidate, FenceStatus, FenceStep, Vendor,
};
use infinigpu::replay::draw::{
    depth_key_of, desc_sig_of, hash_spirv, hash_vinput, map_compare, map_cull_mode, map_topology,
    map_vformat, pipeline_desc, pipeline_key, push_const_size_of, raster_flags_of, DepthState,
    DrawCmd, ForwardedDraw, Geometry, SamplerCfg, StorageBlock, Texture, UniformBlock, VertexAttr,
    WireCodes,
};
use infinigpu::replay::frame::Frame;
use infinigpu::replay::pipelines::{
    CachedPipeline, Dispose, GpuObjCache, ResolveAction, Resolver, MAX_CACHED_PIPELINES,
};
use infinigpu::replay::plans::{
    export_kind, image_size, own_pipeline_slots, plan_clear, plan_convert, plan_reusable,
    plan_triangle, PlanError,
};
use infinigpu::replay::present::{
    check_zerocopy, uploaded, Breakdown, FrameRun, FrameStage, FrameTimes,
};
use infinigpu::replay::record::{
    record_clear, record_convert, record_forwarded_frame, record_triangle, Uploaded,
};
use infinigpu::replay::server::{socket_argument, ServerRefusal};

fn wire() -> WireCodes {
    WireCodes {
        r32_sfloat: 1,
        r32g32_sfloat: 2,
        r32g32b32_sfloat: 3,
        r8g8b8a8_unorm: 5,
        r32_uint: 6,
        never: 0,
        less: 1,
        equal: 2,
        less_or_equal: 3,
        greater: 4,
        not_equal: 5,
        greater_or_equal: 6,
        always: 7,
        cull_front: 1,
        cull_back: 2,
        cull_front_and_back: 3,
        cull_shift: 4,
        cull_mask: 3,
        front_face_cw: 0x100,
        blend: 0x200,
    }
}

fn geometry<'a>() -> Geometry<'a> {
    Geometry {
        vertex_data: &[1, 2, 3, 4],
        vertex_stride: 4,
        attrs: &[VertexAttr { location: 0, format: 1, offset: 0 }],
        index_data: &[],
        index_u32: false,
        draws: &[],
        depth: None,
        push_constants: &[],
        textures: &[],
        tex_binding: 0,
        uniform: None,
        storage: None,
        raster_flags: 0,
    }
}

fn mesh(g: Geometry) -> ForwardedDraw {
    ForwardedDraw { geometry: Some(g), ..ForwardedDraw::builtin_triangle(&[7]) }
}

#[test]
fn wire_numbers_name_vulkan_ones() {
    assert_eq!(map_topology(0), vk::TOPOLOGY_TRIANGLE_LIST);
    assert_eq!(map_topology(1), vk::TOPOLOGY_TRIANGLE_STRIP);
    assert_eq!(map_topology(9), vk::TOPOLOGY_TRIANGLE_LIST);
    let w = wire();
    for (f, v) in [
        (1, vk::FORMAT_R32_SFLOAT),
        (2, vk::FORMAT_R32G32_SFLOAT),
        (3, vk::FORMAT_R32G32B32_SFLOAT),
        (4, vk::FORMAT_R32G32B32A32_SFLOAT),
        (5, vk::FORMAT_R8G8B8A8_UNORM),
        (6, vk::FORMAT_R32_UINT),
    ] {
        assert_eq!(map_vformat(&w, f), v);
    }
    for c in 0..8 {
        assert_eq!(map_compare(&w, c), c as i32);
    }
    assert_eq!(map_compare(&w, 99), vk::COMPARE_LESS_OR_EQUAL);
    assert_eq!(map_cull_mode(&w, 0x10), vk::CULL_FRONT);
    assert_eq!(map_cull_mode(&w, 0x20), vk::CULL_BACK);
    assert_eq!(map_cull_mode(&w, 0x30), vk::CULL_FRONT_AND_BACK);
    assert_eq!(map_cull_mode(&w, 0x0f), vk::CULL_NONE);
}

#[test]
fn hashes_are_fnv_with_the_length_in_the_seed() {
    assert_eq!(hash_spirv(&[]), 0xcbf2_9ce4_8422_2325);
    let one = (0xcbf2_9ce4_8422_2325u64 ^ 1 ^ 5).wrapping_mul(0x100_0000_01b3);
    assert_eq!(hash_spirv(&[5]), one);
    assert_ne!(hash_spirv(&[5, 0]), hash_spirv(&[5]));
    assert_eq!(hash_vinput(&ForwardedDraw::builtin_triangle(&[1])), 0);
    assert_eq!(hash_vinput(&mesh(Geometry { vertex_stride: 0, ..geometry() })), 0);
    assert_ne!(
        hash_vinput(&mesh(geometry())),
        hash_vinput(&mesh(Geometry { vertex_stride: 8, ..geometry() }))
    );
}

#[test]
fn the_built_in_triangle_has_plain_state() {
    let d = ForwardedDraw::builtin_triangle(&[1, 2]);
    assert_eq!((d.vertex_entry, d.fragment_entry), ("vs_main", "fs_main"));
    assert_eq!((d.vertex_count, d.topology), (3, 0));
    assert_eq!(depth_key_of(&d), (false, 0));
    assert_eq!(push_const_size_of(&d), 0);
    assert_eq!(raster_flags_of(&d), 0);
    assert!(desc_sig_of(&d).is_none());
    let p = pipeline_desc(&wire(), &d);
    assert_eq!((p.stride, p.attrs.len(), p.push_size), (0, 0, 0));
    assert_eq!((p.cull, p.front_face, p.blend), (vk::CULL_NONE, vk::FRONT_FACE_CCW, false));
    assert!(p.depth.is_none() && p.sig.is_none());
}

#[test]
fn a_mesh_decides_its_pipeline() {
    let depth = DepthState { test: true, write: false, compare: 1 };
    let d = mesh(Geometry {
        depth: Some(depth),
        push_constants: &[0; 64],
        raster_flags: 0x320,
        uniform: Some(UniformBlock { binding: 3, bytes: &[1] }),
        storage: Some(StorageBlock { binding: 4, bytes: &[1] }),
        ..geometry()
    });
    let p = pipeline_desc(&wire(), &d);
    assert_eq!((p.stride, p.push_size), (4, 64));
    assert_eq!(p.attrs[0].format, vk::FORMAT_R32_SFLOAT);
    assert_eq!((p.cull, p.front_face, p.blend), (vk::CULL_BACK, vk::FRONT_FACE_CW, true));
    let got = p.depth.unwrap();
    assert_eq!((got.test, got.write, got.compare), (true, false, vk::COMPARE_LESS));
    let sig = p.sig.unwrap();
    assert_eq!((sig.ubo_binding, sig.tex_binding, sig.ssbo_binding), (Some(3), None, Some(4)));
    let (needed, key) = depth_key_of(&d);
    assert!(needed);
    assert_ne!(key, 0);
    let off = DepthState { test: false, write: false, compare: 1 };
    assert_eq!(depth_key_of(&mesh(Geometry { depth: Some(off), ..geometry() })), (false, 0));
    assert!(!off.attachment_needed() && depth.attachment_needed());
}

#[test]
fn a_second_draw_finds_the_pipeline() {
    let mut cache = GpuObjCache::new();
    let d = mesh(geometry());
    let (mut r, gone) = Resolver::start(&mut cache, pipeline_key(&d, 37), false);
    assert!(gone.is_empty());
    assert_eq!(
        r.next(&mut cache),
        ResolveAction::BuildRenderPass { format: 37, with_depth: false }
    );
    r.give(&mut cache, 100);
    assert_eq!(r.next(&mut cache), ResolveAction::BuildVertexModule);
    r.give(&mut cache, 200);
    // Both stages are the same words, so one module serves both.
    assert_eq!(
        r.next(&mut cache),
        ResolveAction::BuildPipeline { render_pass: 100, vertex: 200, fragment: 200 }
    );
    r.finish(&mut cache, CachedPipeline { pipeline: 300, layout: 400 });
    let done = ResolveAction::Done { render_pass: 100, pipeline: 300, layout: 400 };
    assert_eq!(r.next(&mut cache), done);
    assert_eq!(cache.stats(), (0, 1, 1));
    let (mut again, _) = Resolver::start(&mut cache, pipeline_key(&d, 37), false);
    assert_eq!(again.next(&mut cache), done);
    assert_eq!(cache.stats(), (1, 1, 1));
    assert_eq!(
        cache.clear(),
        vec![
            Dispose::Pipeline(300),
            Dispose::Layout(400),
            Dispose::Module(200),
            Dispose::RenderPass(100),
        ]
    );
    assert_eq!(cache.stats(), (1, 1, 0));
}

#[test]
fn a_failed_build_frees_only_what_it_made() {
    let mut cache = GpuObjCache::new();
    let good = ForwardedDraw::builtin_triangle(&[1]);
    let (mut r, _) = Resolver::start(&mut cache, pipeline_key(&good, 37), false);
    r.next(&mut cache);
    r.give(&mut cache, 1);
    r.next(&mut cache);
    r.give(&mut cache, 2);
    r.next(&mut cache);
    r.finish(&mut cache, CachedPipeline { pipeline: 3, layout: 4 });

    let bad = ForwardedDraw { fragment_spirv: &[2], ..good };
    let (mut r, _) = Resolver::start(&mut cache, pipeline_key(&bad, 37), false);
    assert_eq!(r.next(&mut cache), ResolveAction::BuildFragmentModule);
    assert!(r.fail().is_empty());
    r.give(&mut cache, 5);
    assert_eq!(
        r.next(&mut cache),
        ResolveAction::BuildPipeline { render_pass: 1, vertex: 2, fragment: 5 }
    );
    assert_eq!(r.fail(), vec![Dispose::Module(5)]);
    assert_eq!(cache.stats(), (0, 1, 1));
}

#[test]
fn another_entry_point_is_another_pipeline() {
    let mut cache = GpuObjCache::new();
    let good = ForwardedDraw::builtin_triangle(&[1]);
    let (mut r, _) = Resolver::start(&mut cache, pipeline_key(&good, 37), false);
    r.next(&mut cache);
    r.give(&mut cache, 1);
    r.next(&mut cache);
    r.give(&mut cache, 2);
    r.next(&mut cache);
    r.finish(&mut cache, CachedPipeline { pipeline: 3, layout: 4 });

    let build = ResolveAction::BuildPipeline { render_pass: 1, vertex: 2, fragment: 2 };
    for bad in [
        ForwardedDraw { vertex_entry: "no_such_entry", ..good },
        ForwardedDraw { fragment_entry: "no_such_entry", ..good },
    ] {
        let (mut r, _) = Resolver::start(&mut cache, pipeline_key(&bad, 37), false);
        assert_eq!(r.next(&mut cache), build);
        assert!(r.fail().is_empty());
    }
    let (mut r, _) = Resolver::start(&mut cache, pipeline_key(&good, 37), false);
    assert_eq!(
        r.next(&mut cache),
        ResolveAction::Done { render_pass: 1, pipeline: 3, layout: 4 }
    );
}

#[test]
fn the_depth_key_holds_all_of_the_compare_operation() {
    let key = |compare: u32| {
        let depth = Some(DepthState { test: true, write: false, compare });
        depth_key_of(&mesh(Geometry { depth, ..geometry() }))
    };
    assert_eq!(key(8), (true, 131));
    assert_eq!(key(0), (true, 3));
    assert_eq!(key(u32::MAX), (true, 3 + 16 * u32::MAX as u64));
    assert_ne!(key(1 << 28), key(0));
}

#[test]
fn a_flood_of_shaders_empties_the_cache() {
    let mut cache = GpuObjCache::new();
    for n in 0..MAX_CACHED_PIPELINES as u32 {
        let words = [n];
        let d = ForwardedDraw::builtin_triangle(&words);
        let (mut r, gone) = Resolver::start(&mut cache, pipeline_key(&d, 37), false);
        assert!(gone.is_empty());
        if n == 0 {
            r.next(&mut cache);
            r.give(&mut cache, 1);
        }
        assert_eq!(r.next(&mut cache), ResolveAction::BuildVertexModule);
        r.give(&mut cache, 1000 + n as u64);
        r.next(&mut cache);
        r.finish(&mut cache, CachedPipeline { pipeline: n as u64 + 1, layout: n as u64 + 1 });
    }
    assert_eq!(cache.stats().2, 256);
    let d = ForwardedDraw::builtin_triangle(&[9999]);
    let (_, gone) = Resolver::start(&mut cache, pipeline_key(&d, 37), false);
    assert_eq!(gone.len(), 256 * 3 + 1);
    assert_eq!(cache.stats(), (0, 256, 0));
}

#[test]
fn sizes_and_export_kinds() {
    assert_eq!(image_size(640, 480), 1_228_800);
    assert_eq!(export_kind(true), (vk::HANDLE_DMA_BUF, "dma-buf"));
    assert_eq!(export_kind(false), (vk::HANDLE_OPAQUE_FD, "opaque-fd"));
}

#[test]
fn the_plan_of_a_clear() {
    let plan = plan_clear(4, 2);
    assert_eq!(
        plan[0],
        Step::Image {
            into: Slot::Image,
            format: vk::FORMAT_R8G8B8A8_UNORM,
            width: 4,
            height: 2,
            usage: vk::IMAGE_COLOR_ATTACHMENT | vk::IMAGE_TRANSFER_SRC,
        }
    );
    assert_eq!(plan.last(), Some(&Step::ReadBack { memory: Slot::ReadbackMem, size: 32 }));
    assert!(!plan.contains(&Step::ResolvePipeline));
}

#[test]
fn the_plan_of_a_triangle() {
    let d = ForwardedDraw::builtin_triangle(&[1]);
    assert_eq!(plan_triangle(&d, 4, 2, true, false, true), Err(PlanError::NoExport));
    let plain = plan_triangle(&d, 4, 2, false, false, false).unwrap();
    assert!(plain.contains(&Step::ResolvePipeline));
    let export = plan_triangle(&d, 4, 2, true, true, true).unwrap();
    assert_eq!(export.len(), plain.len() + 4);
    let depth = Some(DepthState { test: true, write: true, compare: 1 });
    let deep = mesh(Geometry { depth, ..geometry() });
    let deep = plan_triangle(&deep, 4, 2, false, false, false).unwrap();
    assert_eq!(deep.len(), plain.len() + 4);
    assert!(deep.iter().any(|s| matches!(s, Step::Framebuffer { with_depth: true, .. })));
    assert_eq!(
        export.last(),
        Some(&Step::ExportFd { memory: Slot::ExportMem, handle_type: vk::HANDLE_DMA_BUF })
    );
    assert_eq!(
        own_pipeline_slots(),
        vec![
            Slot::RenderPass,
            Slot::VertexModule,
            Slot::FragmentModule,
            Slot::Layout,
            Slot::Pipeline
        ]
    );
}

#[test]
fn the_plan_of_a_kept_target() {
    let plain = plan_reusable(4, 2, false);
    let deep = plan_reusable(4, 2, true);
    assert_eq!(deep.len(), plain.len() + 4);
    assert_eq!(deep.last(), Some(&Step::MapMemory { memory: Slot::ReadbackMem, size: 32 }));
}

#[test]
fn a_conversion_needs_the_bytes_of_its_geometry() {
    let plan = |w, h, pitch, bytes, export, can| {
        plan_convert(w, h, pitch, vk::FORMAT_R8G8B8A8_UNORM, bytes, export, can, false)
    };
    assert_eq!(plan(0, 2, 16, 32, false, false), Err(PlanError::BadGeometry));
    assert_eq!(plan(4, 0, 16, 32, false, false), Err(PlanError::BadGeometry));
    assert_eq!(plan(4, 2, 15, 32, false, false), Err(PlanError::BadGeometry));
    assert_eq!(plan(4, 2, 16, 31, false, false), Err(PlanError::TooSmall));
    assert_eq!(plan(4, 2, 16, 32, true, false), Err(PlanError::NoExport));
    let steps = plan(4, 2, 20, 40, false, false).unwrap();
    assert!(steps.contains(&Step::Fill { memory: Slot::StagingMem, size: 40 }));
    assert_eq!(steps.last(), Some(&Step::ReadBack { memory: Slot::ReadbackMem, size: 32 }));
    assert_eq!(plan(4, 2, 20, 40, true, true).unwrap().len(), steps.len() + 4);
    assert_eq!(PlanError::BadGeometry.message(), "convert_present: bad geometry");
    assert_eq!(
        PlanError::TooSmall.message(),
        "convert_present: src_bytes too small for geometry"
    );
    assert_eq!(
        PlanError::NoExport.message(),
        "device does not support external-memory fd export"
    );
    assert_eq!(
        PlanError::HasGeometry.message(),
        "render_forwarded_zerocopy: geometry draws use the copy present path"
    );
}

#[test]
fn the_commands_of_clears_triangles_and_conversions() {
    let clear = record_clear(4, 2, [1, 2, 3, 4]);
    assert_eq!(clear.len(), 3);
    assert!(matches!(clear[0], Command::BeginPass { color: [1, 2, 3, 4], clear_depth: false, .. }));
    assert!(matches!(clear[2], Command::CopyImageToBuffer { buffer: Buf::Readback, .. }));
    let d = ForwardedDraw::builtin_triangle(&[1]);
    let draw = |d: &ForwardedDraw, up, export| record_triangle(d, up, None, 4, 2, [0; 4], export);
    let triangle = draw(&d, Uploaded::Nothing, true);
    assert_eq!(triangle.len(), 8);
    assert!(matches!(triangle[4], Command::Draw { count: 3, instances: 1, first: 0 }));
    assert!(matches!(triangle[7], Command::CopyImageToBuffer { buffer: Buf::Export, .. }));
    assert_eq!(draw(&d, Uploaded::Nothing, false).len(), 7);
    // A mesh is drawn by its own list, whatever the vertex count says.
    let m = ForwardedDraw { vertex_count: 77, ..mesh(Geometry { draws: &[], ..geometry() }) };
    let none = draw(&m, Uploaded::Vertices, false);
    assert!(!none.iter().any(|c| matches!(c, Command::Draw { .. } | Command::DrawIndexed { .. })));
    let list = [DrawCmd { count: 6, instance_count: 0, first: 1, vertex_offset: 0, viewport: [0; 4] }];
    let m = ForwardedDraw { vertex_count: 77, ..mesh(Geometry { draws: &list, ..geometry() }) };
    let drawn = draw(&m, Uploaded::Vertices, false);
    assert!(drawn.iter().any(|c| matches!(c, Command::BindVertexBuffer)));
    let draws: Vec<&Command> =
        drawn.iter().filter(|c| matches!(c, Command::Draw { .. })).collect();
    assert!(matches!(draws[..], [Command::Draw { count: 6, instances: 1, first: 1 }]));
    let convert = record_convert(4, 2, 20, false);
    // Five pixels of four bytes in a row of twenty bytes.
    assert!(convert.iter().any(|c| matches!(c, Command::CopyBufferToImage { row_length: 5, .. })));
    assert_eq!(record_convert(4, 2, 20, true).len(), convert.len() + 1);
}

#[test]
fn the_commands_of_a_forwarded_frame() {
    let plain = ForwardedDraw::builtin_triangle(&[1]);
    let cmds =
        record_forwarded_frame(&plain, Uploaded::Nothing, None, 4, 2, [0; 4], false, Buf::Readback);
    assert_eq!(cmds.len(), 7);
    assert!(matches!(cmds[4], Command::Draw { count: 3, .. }));

    let draws = [
        DrawCmd { count: 6, instance_count: 0, first: 1, vertex_offset: -2, viewport: [0; 4] },
        DrawCmd {
            count: 3,
            instance_count: 5,
            first: 0,
            vertex_offset: 0,
            viewport: [0, 0, 1.0f32.to_bits(), 1.0f32.to_bits()],
        },
    ];
    let d = mesh(Geometry {
        index_data: &[0, 0],
        draws: &draws,
        push_constants: &[1],
        ..geometry()
    });
    assert_eq!(uploaded(&d), Uploaded::VerticesAndIndices);
    let sizes = [Size { width: 2, height: 2 }];
    let cmds = record_forwarded_frame(
        &d,
        uploaded(&d),
        Some(&sizes),
        4,
        2,
        [0; 4],
        true,
        Buf::Guest,
    );
    let shown: Vec<String> = cmds.iter().map(|c| format!("{c:?}")).collect();
    let place = |name: &str| shown.iter().position(|s| s.starts_with(name)).unwrap();
    assert!(place("Barrier") < place("BeginPass"));
    assert!(place("BindDescriptors") < place("PushConstants"));
    assert!(place("BindVertexBuffer") < place("BindIndexBuffer"));
    assert!(place("EndPass") < place("CopyImageToBuffer"));
    assert_eq!(
        shown[place("DrawIndexed")],
        "DrawIndexed { count: 6, instances: 1, first: 1, vertex_offset: -2 }"
    );
    assert_eq!(shown.iter().filter(|s| s.starts_with("SetViewport(Custom")).count(), 1);
    assert_eq!(shown.iter().filter(|s| s.starts_with("SetViewport(Full")).count(), 1);
}

#[test]
fn descriptors_are_bounded() {
    let uniform = |bytes| Some(UniformBlock { binding: 1, bytes });
    let storage = |bytes| Some(StorageBlock { binding: 2, bytes });
    let big = vec![0u8; 0x100_0001];
    assert_eq!(
        plan_descriptors(uniform(&[]), None, 0, 0),
        Err(ResourceError::BadUniform { bytes: 0 })
    );
    assert_eq!(
        plan_descriptors(uniform(&big[..65537]), None, 0, 0),
        Err(ResourceError::BadUniform { bytes: 65537 })
    );
    assert_eq!(
        plan_descriptors(None, storage(&big), 0, 0),
        Err(ResourceError::BadStorage { bytes: 0x100_0001 })
    );
    assert_eq!(
        plan_descriptors(None, storage(&[]), 0, 0),
        Err(ResourceError::BadStorage { bytes: 0 })
    );
    assert_eq!(
        plan_descriptors(None, None, 9, 0),
        Err(ResourceError::TooManyTextures { count: 9 })
    );
    let plan = plan_descriptors(uniform(&[1, 2]), storage(&[1]), 2, 4).unwrap();
    assert!(plan.contains(&Step::WriteBuffer {
        binding: 1,
        descriptor: vk::DESCRIPTOR_UNIFORM_BUFFER,
        buffer: Slot::Uniform,
        size: 2,
    }));
    assert!(plan.contains(&Step::Texture { index: 1, binding: 6 }));
    assert_eq!(pool_sizes(true, true, 2).len(), 4);
    assert_eq!(pool_sizes(false, false, 0).len(), 0);
}

#[test]
fn resource_refusals_in_words() {
    assert_eq!(
        ResourceError::BadUniform { bytes: 0 }.message(),
        "bad uniform block (0 bytes)"
    );
    assert_eq!(
        ResourceError::BadStorage { bytes: 7 }.message(),
        "bad storage block (7 bytes)"
    );
    assert_eq!(
        ResourceError::TooManyTextures { count: 9 }.message(),
        "too many textures (9 > 8)"
    );
    assert_eq!(
        ResourceError::BadTexture { width: 1, height: 2, bytes: 3 }.message(),
        "bad texture 1x2 (3 bytes)"
    );
    assert_eq!(ResourceError::EmptyBuffer.message(), "empty geometry buffer");
}

#[test]
fn the_layout_holds_each_resource_at_its_binding() {
    let textures = [Texture {
        width: 1,
        height: 1,
        rgba: &[0; 4],
        sampler: SamplerCfg { linear: true, repeat: false },
    }; 2];
    let d = mesh(Geometry {
        uniform: Some(UniformBlock { binding: 0, bytes: &[1] }),
        textures: &textures,
        tex_binding: 1,
        ..geometry()
    });
    let b = layout_bindings(&desc_sig_of(&d).unwrap());
    let got: Vec<(u32, i32)> = b.iter().map(|b| (b.binding, b.descriptor)).collect();
    assert_eq!(
        got,
        vec![
            (0, vk::DESCRIPTOR_UNIFORM_BUFFER),
            (1, vk::DESCRIPTOR_SAMPLED_IMAGE),
            (2, vk::DESCRIPTOR_SAMPLER),
            (3, vk::DESCRIPTOR_SAMPLED_IMAGE),
            (4, vk::DESCRIPTOR_SAMPLER),
        ]
    );
}

#[test]
fn textures_have_the_bytes_of_their_size() {
    let t = |width, height, rgba| Texture {
        width,
        height,
        rgba,
        sampler: SamplerCfg { linear: true, repeat: false },
    };
    for (w, h) in [(0, 1), (1, 0), (16385, 1), (1, 16385), (2, 1)] {
        assert_eq!(
            plan_texture(&t(w, h, &[0; 4]), 3),
            Err(ResourceError::BadTexture { width: w, height: h, bytes: 4 })
        );
    }
    let plan = plan_texture(&t(1, 1, &[0; 4]), 3).unwrap();
    assert!(plan.contains(&Step::Sampler {
        into: Slot::Sampler,
        filter: vk::FILTER_LINEAR,
        address: vk::ADDRESS_CLAMP_TO_EDGE,
    }));
    assert!(plan.contains(&Step::WriteSampler { binding: 4, sampler: Slot::Sampler }));
}

#[test]
fn a_mesh_needs_vertices() {
    assert_eq!(
        plan_geometry(&Geometry { vertex_data: &[], ..geometry() }),
        Err(ResourceError::EmptyBuffer)
    );
    let plain = plan_geometry(&geometry()).unwrap();
    let indexed = plan_geometry(&Geometry { index_data: &[0, 0], ..geometry() }).unwrap();
    assert_eq!(indexed.len(), plain.len() * 2);
}

#[test]
fn the_best_device_is_opened() {
    let c = |driver_id, device_type| Candidate { driver_id, device_type };
    assert_eq!(pick_device(&[]), None);
    let discrete = vk::DEVICE_DISCRETE_GPU;
    let nvidia = vk::DRIVER_NVIDIA_PROPRIETARY;
    assert_eq!(pick_device(&[c(3, 1), c(3, discrete), c(nvidia, 1), c(nvidia, discrete)]), Some(3));
    assert_eq!(pick_device(&[c(3, 1), c(3, discrete), c(3, discrete)]), Some(1));
    assert_eq!(graphics_family(&[2, 4, 7, 1]), Some(2));
    assert_eq!(graphics_family(&[2, 4]), None);
}

#[test]
fn features_are_those_that_the_device_has() {
    let names = |n: &[&str]| n.iter().map(|s| s.to_string()).collect::<Vec<_>>();
    let f = choose_features(&names(&["VK_EXT_external_memory_dma_buf", "VK_EXT_external_memory_host"]));
    assert!(!f.export_fd && !f.export_dma_buf && f.import_host);
    assert_eq!(enabled_extensions(&f), vec!["VK_EXT_external_memory_host"]);
    let f = choose_features(&names(&["VK_EXT_external_memory_dma_buf", "VK_KHR_external_memory_fd"]));
    assert!(f.export_fd && f.export_dma_buf && !f.import_host);
    assert_eq!(
        enabled_extensions(&f),
        vec!["VK_KHR_external_memory_fd", "VK_EXT_external_memory_dma_buf"]
    );
}

#[test]
fn settings() {
    assert!(flag_on(None) && flag_on(Some("1")) && flag_on(Some("")));
    assert!(!flag_on(Some("0")) && !flag_on(Some("FaLse")));
    assert_eq!(caches_on(None, None), (true, true));
    assert_eq!(caches_on(Some("0"), Some("1")), (false, false));
    assert_eq!(caches_on(Some("1"), Some("false")), (true, false));
    assert_eq!(number_setting(Some("250"), 7), 250);
    assert_eq!(number_setting(Some("x"), 7), 7);
    assert_eq!(number_setting(None, 7), 7);
    assert!(supports_zerocopy_scanout(true, 4096));
    assert!(!supports_zerocopy_scanout(false, 4096) && !supports_zerocopy_scanout(true, 65536));
}

#[test]
fn fences_are_polled_for_a_while() {
    assert!(!polls_fence(0) && polls_fence(1));
    assert_eq!(fence_step(FenceStatus::Signaled, 99, 10), FenceStep::Done);
    assert_eq!(fence_step(FenceStatus::NotReady, 9, 10), FenceStep::Spin);
    assert_eq!(fence_step(FenceStatus::NotReady, 10, 10), FenceStep::Block);
    assert_eq!(fence_step(FenceStatus::Failed, 0, 10), FenceStep::Block);
}

#[test]
fn vendors() {
    for (id, vendor, priority) in [
        (vk::DRIVER_NVIDIA_PROPRIETARY, Vendor::Nvidia, true),
        (vk::DRIVER_MESA_RADV, Vendor::Amd, true),
        (vk::DRIVER_INTEL_OPEN_SOURCE_MESA, Vendor::Intel, true),
        (vk::DRIVER_MESA_LLVMPIPE, Vendor::Software, false),
        (99, Vendor::Other, false),
    ] {
        let c = caps(id, "card", "driver");
        assert_eq!((c.vendor, c.global_priority), (vendor, priority));
        assert_eq!((c.device_name.as_str(), c.driver_name.as_str()), ("card", "driver"));
        assert!(c.vulkan_render && c.timestamp_queries && c.external_memory);
    }
}

#[test]
fn render_passes() {
    let p = render_pass_desc(37, true);
    assert_eq!(p.color.final_layout, vk::LAYOUT_TRANSFER_SRC);
    assert_eq!(p.depth.unwrap().format, vk::FORMAT_D32_SFLOAT);
    assert!(p.color_dependency.is_some() && p.depth_dependency.is_some());
    let p = render_pass_desc(37, false);
    assert!(p.depth.is_none() && p.depth_dependency.is_none());
    let p = clear_pass_desc(37);
    assert!(p.depth.is_none() && p.color_dependency.is_none());
}

#[test]
fn a_frame_goes_through_its_stages() {
    let plain = ForwardedDraw::builtin_triangle(&[1]);
    let mut r = FrameRun::start(&plain, true);
    for s in [FrameStage::Record, FrameStage::Submit, FrameStage::Wait, FrameStage::Present] {
        assert_eq!(r.stage, s);
        r.advance(true);
    }
    assert_eq!(r.stage, FrameStage::Finished);

    let d = mesh(Geometry {
        uniform: Some(UniformBlock { binding: 0, bytes: &[1] }),
        ..geometry()
    });
    let mut r = FrameRun::start(&d, false);
    for s in [
        FrameStage::Geometry,
        FrameStage::Descriptors,
        FrameStage::Record,
        FrameStage::Submit,
        FrameStage::Wait,
        FrameStage::FreeGeometry,
        FrameStage::FreeDescriptors,
        FrameStage::Invalidate,
        FrameStage::Present,
    ] {
        assert_eq!(r.stage, s);
        r.advance(true);
    }
    assert_eq!(r.stage, FrameStage::Finished);
}

#[test]
fn a_failed_frame_frees_what_it_made() {
    let d = mesh(Geometry {
        uniform: Some(UniformBlock { binding: 0, bytes: &[1] }),
        ..geometry()
    });
    let mut r = FrameRun::start(&d, true);
    r.advance(true);
    r.advance(false);
    assert_eq!(r.stage, FrameStage::FreeGeometry);
    r.advance(true);
    assert_eq!(r.stage, FrameStage::Failed);

    let mut r = FrameRun::start(&d, true);
    r.advance(true);
    r.advance(true);
    r.advance(false);
    assert_eq!(r.stage, FrameStage::FreeGeometry);
    r.advance(true);
    assert_eq!(r.stage, FrameStage::FreeDescriptors);
    r.advance(true);
    assert_eq!(r.stage, FrameStage::Failed);
    let mut r = FrameRun::start(&ForwardedDraw::builtin_triangle(&[1]), true);
    r.advance(false);
    assert_eq!(r.stage, FrameStage::Failed);
}

#[test]
fn only_plain_draws_are_copied_straight_to_the_guest() {
    assert_eq!(check_zerocopy(&ForwardedDraw::builtin_triangle(&[1])), Ok(()));
    assert_eq!(check_zerocopy(&mesh(geometry())), Err(PlanError::HasGeometry));
    assert_eq!(uploaded(&mesh(geometry())), Uploaded::Vertices);
    assert_eq!(uploaded(&mesh(Geometry { vertex_stride: 0, ..geometry() })), Uploaded::Nothing);
}

#[test]
fn times_are_averaged_over_a_thousand_frames() {
    let mut b = Breakdown::default();
    let t = FrameTimes { setup_ns: 1, record_ns: 2, gpu_ns: 3, copy_ns: 10, present_ns: 4 };
    for _ in 0..999 {
        assert!(b.frame(t).is_none());
    }
    let a = b.frame(FrameTimes { setup_ns: 1001, ..t }).unwrap();
    assert_eq!((a.count, a.setup_ns, a.record_ns, a.gpu_ns), (1000, 2, 2, 3));
    assert_eq!((a.copy_ns, a.present_ns, a.invalidate_ns), (10, 4, 6));
}

fn flat(p: [u8; 4]) -> Frame {
    Frame { width: 512, height: 512, rgba: p.repeat(512 * 512) }
}

#[test]
fn a_clear_is_checked_at_four_pixels() {
    let mut f = flat([0, 153, 204, 255]);
    assert_eq!(clear_faults(&f, [1, 152, 204, 255]), 0);
    assert_eq!(clear_faults(&f, [2, 153, 204, 255]), 4);
    let i = (300 * 512 + 7) * 4;
    f.rgba[i] = 9;
    assert_eq!(clear_faults(&f, [0, 153, 204, 255]), 1);
    assert!(pixel_near([5, 5, 5, 5], [4, 6, 5, 5]));
    assert!(!pixel_near([5, 5, 5, 5], [5, 5, 5, 7]));
}

#[test]
fn a_clear_is_no_triangle() {
    let t = triangle_faults(&flat([13, 13, 20, 255]));
    assert!(t.no_triangle && !t.no_background && t.no_gradient);
    assert_eq!(t.count(), 2);
    let t = triangle_faults(&flat([200, 13, 20, 255]));
    assert!(!t.no_triangle && t.no_background && t.no_gradient);

    let mut f = flat([13, 13, 20, 255]);
    for n in 0..19 {
        let i = (16 * 512 + 16 * n) * 4;
        f.rgba[i] = 100 + n as u8;
    }
    assert_eq!(colours(&f), 20);
    let i = (256 * 512 + 256) * 4;
    f.rgba[i] = 101;
    let t = triangle_faults(&f);
    assert!(!t.no_triangle && !t.no_background && !t.no_gradient);
    assert_eq!(t.count(), 0);
}

#[test]
fn exports_are_checked() {
    assert_eq!(export_fault(-1, u64::MAX), Some(ExportFault::BadDescriptor));
    assert_eq!(export_fault(0, 512 * 512 * 4 - 1), Some(ExportFault::TooSmall));
    assert_eq!(export_fault(0, 512 * 512 * 4), None);
}

#[test]
fn means_round_down() {
    assert_eq!(mean(&[]), 0);
    assert_eq!(mean(&[1, 2]), 1);
    assert_eq!(mean(&[u64::MAX, u64::MAX]), u64::MAX);
}

#[test]
fn the_server_wants_a_socket() {
    let args = |a: &[&str]| a.iter().map(|s| s.to_string()).collect::<Vec<_>>();
    assert!(matches!(socket_argument(&args(&["--socket", "/a", "-s", "/b"])), Ok(s) if s == "/b"));
    assert!(matches!(socket_argument(&args(&[])), Err(ServerRefusal::NoSocket)));
    assert!(matches!(
        socket_argument(&args(&["-s", "/a", "-s"])),
        Err(ServerRefusal::NoSocket)
    ));
    assert!(matches!(
        socket_argument(&args(&["-s", "/a", "x"])),
        Err(ServerRefusal::Unknown(s)) if s == "x"
    ));
}
