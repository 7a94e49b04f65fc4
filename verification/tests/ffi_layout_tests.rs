use std::mem::size_of;

use vulkan_api_registry::ffi::{Flags, NondispatchableHandle, RawAllocationCallbacks,
    RawApplicationInfo, VkAllocationCallbacks, VkApplicationInfo, VkStructInstance,
    VkStructInfo, VkApplicationInfoBase};

#[derive(Clone, Copy)]
struct ImageTag;

#[test]
fn sizeof_nondispatchable_handle() {
    assert_eq!(size_of::<NondispatchableHandle<ImageTag>>(), size_of::<u64>());
}

#[test]
fn application_info_size() {
    assert_eq!(size_of::<VkApplicationInfo>(), size_of::<RawApplicationInfo>());
}

#[test]
fn allocation_callbacks_size() {
    assert_eq!(size_of::<VkAllocationCallbacks<()>>(), size_of::<RawAllocationCallbacks>());
}

#[derive(Clone, Copy)]
struct CullModeTag;

#[test]
fn bitmask_test_bitmask_implemented_by_bitmasks() {
    let front: Flags<CullModeTag, u32> = Flags::new(0b1);
    let back: Flags<CullModeTag, u32> = Flags::new(0b10);
    let both = front.union(back);
    assert!(front.intersects(front));
    assert!(!front.intersects(back));
    assert!(front.intersects(both) && front.subset(both));
    assert!(back.intersects(both) && front.subset(both));
    assert!(front.get() != both.get());
    assert!(back.get() != both.get());
}

#[test]
fn struct_chain_set_next() {
    let mut info = VkStructInstance {
        struct_info: VkStructInfo { ty: 1, next: 0 },
        data: VkApplicationInfoBase {
            application_name: 0,
            engine_name: 0,
            application_version: 1,
            engine_version: 2,
            api_version: 3,
        },
    };
    info.set_next(0x1000);
    assert_eq!(info.struct_info.next, 0x1000);
    assert_eq!(info.struct_info.ty, 1);
    assert_eq!(info.data.api_version, 3);
}
