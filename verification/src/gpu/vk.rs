//! Vulkan's numbers, as far as the plans use them.
use vstd::prelude::*;

verus! {

pub const FORMAT_R8G8B8A8_UNORM: i32 = 37;

pub const FORMAT_B8G8R8A8_UNORM: i32 = 44;

pub const FORMAT_R32_UINT: i32 = 98;

pub const FORMAT_R32_SFLOAT: i32 = 100;

pub const FORMAT_R32G32_SFLOAT: i32 = 103;

pub const FORMAT_R32G32B32_SFLOAT: i32 = 106;

pub const FORMAT_R32G32B32A32_SFLOAT: i32 = 109;

pub const FORMAT_D32_SFLOAT: i32 = 126;

pub const TOPOLOGY_TRIANGLE_LIST: i32 = 3;

pub const TOPOLOGY_TRIANGLE_STRIP: i32 = 4;

pub const COMPARE_NEVER: i32 = 0;

pub const COMPARE_LESS: i32 = 1;

pub const COMPARE_EQUAL: i32 = 2;

pub const COMPARE_LESS_OR_EQUAL: i32 = 3;

pub const COMPARE_GREATER: i32 = 4;

pub const COMPARE_NOT_EQUAL: i32 = 5;

pub const COMPARE_GREATER_OR_EQUAL: i32 = 6;

pub const COMPARE_ALWAYS: i32 = 7;

pub const CULL_NONE: u32 = 0;

pub const CULL_FRONT: u32 = 1;

pub const CULL_BACK: u32 = 2;

pub const CULL_FRONT_AND_BACK: u32 = 3;

pub const FRONT_FACE_CCW: i32 = 0;

pub const FRONT_FACE_CW: i32 = 1;

pub const IMAGE_TRANSFER_SRC: u32 = 1;

pub const IMAGE_TRANSFER_DST: u32 = 2;

pub const IMAGE_SAMPLED: u32 = 4;

pub const IMAGE_COLOR_ATTACHMENT: u32 = 0x10;

pub const IMAGE_DEPTH_ATTACHMENT: u32 = 0x20;

pub const BUFFER_TRANSFER_SRC: u32 = 1;

pub const BUFFER_TRANSFER_DST: u32 = 2;

pub const BUFFER_UNIFORM: u32 = 0x10;

pub const BUFFER_STORAGE: u32 = 0x20;

pub const BUFFER_INDEX: u32 = 0x40;

pub const BUFFER_VERTEX: u32 = 0x80;

pub const ASPECT_COLOR: u32 = 1;

pub const ASPECT_DEPTH: u32 = 2;

pub const LAYOUT_UNDEFINED: i32 = 0;

pub const LAYOUT_COLOR_ATTACHMENT: i32 = 2;

pub const LAYOUT_DEPTH_ATTACHMENT: i32 = 3;

pub const LAYOUT_SHADER_READ_ONLY: i32 = 5;

pub const LAYOUT_TRANSFER_SRC: i32 = 6;

pub const LAYOUT_TRANSFER_DST: i32 = 7;

pub const LAYOUT_PRESENT_SRC: i32 = 1_000_001_002;

pub const STAGE_TOP_OF_PIPE: u32 = 1;

pub const STAGE_FRAGMENT_SHADER: u32 = 0x80;

pub const STAGE_EARLY_FRAGMENT_TESTS: u32 = 0x100;

pub const STAGE_LATE_FRAGMENT_TESTS: u32 = 0x200;

pub const STAGE_COLOR_ATTACHMENT_OUTPUT: u32 = 0x400;

pub const STAGE_TRANSFER: u32 = 0x1000;

pub const STAGE_ALL_COMMANDS: u32 = 0x1_0000;

pub const ACCESS_SHADER_READ: u32 = 0x20;

pub const ACCESS_COLOR_ATTACHMENT_WRITE: u32 = 0x100;

pub const ACCESS_DEPTH_ATTACHMENT_WRITE: u32 = 0x400;

pub const ACCESS_TRANSFER_READ: u32 = 0x800;

pub const ACCESS_TRANSFER_WRITE: u32 = 0x1000;

pub const ACCESS_MEMORY_READ: u32 = 0x8000;

pub const ACCESS_MEMORY_WRITE: u32 = 0x1_0000;

pub const LOAD_CLEAR: i32 = 1;

pub const LOAD_DONT_CARE: i32 = 2;

pub const STORE_STORE: i32 = 0;

pub const STORE_DONT_CARE: i32 = 1;

pub const SUBPASS_OUTSIDE: u32 = 0xffff_ffff;

pub const SHADER_VERTEX: u32 = 1;

pub const SHADER_FRAGMENT: u32 = 0x10;

pub const MEMORY_DEVICE_LOCAL: u32 = 1;

pub const MEMORY_HOST_VISIBLE: u32 = 2;

pub const MEMORY_HOST_COHERENT: u32 = 4;

pub const MEMORY_HOST_CACHED: u32 = 8;

pub const DESCRIPTOR_SAMPLER: i32 = 0;

pub const DESCRIPTOR_SAMPLED_IMAGE: i32 = 2;

pub const DESCRIPTOR_UNIFORM_BUFFER: i32 = 6;

pub const DESCRIPTOR_STORAGE_BUFFER: i32 = 7;

pub const FILTER_NEAREST: i32 = 0;

pub const FILTER_LINEAR: i32 = 1;

pub const ADDRESS_REPEAT: i32 = 0;

pub const ADDRESS_CLAMP_TO_EDGE: i32 = 2;

pub const INDEX_UINT16: i32 = 0;

pub const INDEX_UINT32: i32 = 1;

pub const HANDLE_OPAQUE_FD: u32 = 1;

pub const HANDLE_HOST_ALLOCATION: u32 = 0x80;

pub const HANDLE_DMA_BUF: u32 = 0x200;

pub const QUEUE_GRAPHICS: u32 = 1;

pub const DEVICE_DISCRETE_GPU: i32 = 2;

pub const DRIVER_AMD_PROPRIETARY: i32 = 1;

pub const DRIVER_AMD_OPEN_SOURCE: i32 = 2;

pub const DRIVER_MESA_RADV: i32 = 3;

pub const DRIVER_NVIDIA_PROPRIETARY: i32 = 4;

pub const DRIVER_INTEL_PROPRIETARY_WINDOWS: i32 = 5;

pub const DRIVER_INTEL_OPEN_SOURCE_MESA: i32 = 6;

pub const DRIVER_MESA_LLVMPIPE: i32 = 13;

pub const PRESENT_IMMEDIATE: i32 = 0;

pub const PRESENT_MAILBOX: i32 = 1;

pub const PRESENT_FIFO: i32 = 2;

} // verus!
