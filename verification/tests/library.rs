use sunray::device::{
    best_graphics_queue_family, choose_present_mode, choose_surface_format, find_memory_type_index, max_device_local_heap_size,
    select_physical_device, swapchain_image_count, DeviceQuery, DeviceSelection, MemoryHeapQuery, QueueFamilyQuery,
    SurfaceFormat, COLOR_SPACE_SRGB_NONLINEAR, FORMAT_B8G8R8A8_SRGB, PRESENT_MODE_FIFO, PRESENT_MODE_IMMEDIATE,
    PRESENT_MODE_MAILBOX,
};
use sunray::error::{ErrorSource, SrError};
use sunray::render_graph::error::GraphError;
use sunray::render_graph::pipeline_cache::{
    compute_pipeline_key, graphics_pipeline_key, pipeline_cache_key, raytracing_pipeline_key, PipelineCache, PipelineHandle,
};
use sunray::utils::{
    env_var_as_bool, flag_from_parsed, iterate_image_extent, parse_crate_version, tuple_to_extent2d, tuple_to_extent3d,
    crate_version_from_parts,
};

fn fam(supports_surface: bool, graphics: bool, queue_count: u32) -> QueueFamilyQuery {
    QueueFamilyQuery { supports_surface, graphics, queue_count }
}

fn heap(device_local: bool, size: u64) -> MemoryHeapQuery {
    MemoryHeapQuery { device_local, size }
}

#[test]
fn queue_family_with_most_queues_is_chosen() {
    let fams = vec![fam(true, false, 16), fam(true, true, 2), fam(false, true, 8), fam(true, true, 4), fam(true, true, 4)];
    assert_eq!(best_graphics_queue_family(&fams), Some((3, 4)));
    assert_eq!(best_graphics_queue_family(&vec![fam(true, true, 0)]), None);
    assert_eq!(best_graphics_queue_family(&vec![]), None);
}

#[test]
fn device_with_largest_local_heap_is_chosen() {
    assert_eq!(max_device_local_heap_size(&vec![heap(false, 100), heap(true, 10), heap(true, 30)]), 30);
    assert_eq!(max_device_local_heap_size(&vec![heap(false, 100)]), 0);
    let devs = vec![
        DeviceQuery { queue_families: vec![fam(true, true, 1)], memory_heaps: vec![heap(true, 10)] },
        DeviceQuery { queue_families: vec![fam(false, true, 1)], memory_heaps: vec![heap(true, 100)] },
        DeviceQuery { queue_families: vec![fam(true, true, 1), fam(true, true, 3)], memory_heaps: vec![heap(true, 20)] },
        DeviceQuery { queue_families: vec![fam(true, true, 1)], memory_heaps: vec![heap(true, 20)] },
    ];
    assert_eq!(select_physical_device(&devs).unwrap(), DeviceSelection { device_index: 2, queue_family: 1, queue_count: 3 });
    let none = vec![DeviceQuery { queue_families: vec![fam(true, true, 1)], memory_heaps: vec![heap(false, 10)] }];
    let e = select_physical_device(&none).unwrap_err();
    assert!(e.get_source().is_none());
    assert_eq!(e.description(), "No suitable physical device detected!");
}

#[test]
fn surface_format_and_present_mode() {
    let other = SurfaceFormat { format: 44, color_space: 0 };
    let srgb = SurfaceFormat { format: FORMAT_B8G8R8A8_SRGB, color_space: COLOR_SPACE_SRGB_NONLINEAR };
    assert_eq!(choose_surface_format(&vec![other, srgb]), srgb);
    assert_eq!(choose_surface_format(&vec![other]), other);
    assert_eq!(choose_present_mode(&vec![PRESENT_MODE_FIFO, PRESENT_MODE_MAILBOX]), PRESENT_MODE_MAILBOX);
    assert_eq!(choose_present_mode(&vec![PRESENT_MODE_IMMEDIATE, PRESENT_MODE_FIFO]), PRESENT_MODE_IMMEDIATE);
    assert_eq!(choose_present_mode(&vec![]), PRESENT_MODE_FIFO);
    assert_eq!(swapchain_image_count(2, 0), 3);
    assert_eq!(swapchain_image_count(2, 3), 3);
    assert_eq!(swapchain_image_count(2, 2), 2);
}

#[test]
fn memory_type_is_first_allowed_with_all_flags() {
    let mut flags = vec![0u32; 32];
    flags[1] = 0b0110;
    flags[3] = 0b0111;
    flags[5] = 0b0001;
    assert_eq!(find_memory_type_index(0b1010, &flags, 0b0110), Some(1));
    assert_eq!(find_memory_type_index(0b1000, &flags, 0b0110), Some(3));
    assert_eq!(find_memory_type_index(0b0001, &flags, 0b0110), None);
    assert_eq!(find_memory_type_index(0b100000, &flags, 0), Some(5));
}

#[test]
fn pipeline_cache_builds_each_key_once() {
    let mut cache: PipelineCache<&'static str> = PipelineCache::new();
    let mut builds = 0;
    let h1 = cache.intern(7, || { builds += 1; Ok("compute") }).unwrap();
    assert_eq!(h1, PipelineHandle(0));
    let h2 = cache.intern(7, || panic!("already interned")).unwrap();
    assert_eq!(h2, h1);
    let h3 = cache.intern(9, || Ok("rt")).unwrap();
    assert_eq!(h3, PipelineHandle(1));
    let e = cache.intern(11, || Err(SrError::new_custom("shader failed".to_string())));
    assert!(e.is_err());
    assert_eq!(cache.len(), 2);
    assert_eq!(cache.get(h1), Some(&"compute"));
    assert_eq!(cache.get(PipelineHandle(5)), None);
    assert_eq!(cache.lookup(9), Some(h3));
    assert_eq!(cache.lookup(11), None);
    assert_eq!(builds, 1);
}

#[test]
fn pipeline_keys_separate_kinds_and_contents() {
    let spirv = vec![1u8, 2, 3];
    assert_eq!(compute_pipeline_key(&spirv), compute_pipeline_key(&spirv.clone()));
    assert_eq!(compute_pipeline_key(&spirv), pipeline_cache_key(0, &vec![spirv.clone()]));
    assert_ne!(pipeline_cache_key(0, &vec![spirv.clone()]), pipeline_cache_key(2, &vec![spirv.clone()]));
    assert_ne!(compute_pipeline_key(&spirv), compute_pipeline_key(&vec![1, 2, 4]));
    let a = raytracing_pipeline_key(&vec![1], &vec![2], &vec![3], &vec![4]);
    let b = raytracing_pipeline_key(&vec![1], &vec![2], &vec![3], &vec![5]);
    assert_ne!(a, b);
    assert_ne!(graphics_pipeline_key(&vec![1], &vec![2], 37), graphics_pipeline_key(&vec![1], &vec![2], 43));
    // The length prefix keeps the boundaries between the parts.
    assert_ne!(pipeline_cache_key(0, &vec![vec![1u8], vec![2u8]]), pipeline_cache_key(0, &vec![vec![1u8, 2u8]]));
}

#[test]
fn env_flags() {
    assert_eq!(env_var_as_bool(Some("1".to_string())), Some(true));
    assert_eq!(env_var_as_bool(Some("0".to_string())), Some(false));
    assert_eq!(env_var_as_bool(Some("-3".to_string())), Some(true));
    assert_eq!(env_var_as_bool(Some("yes".to_string())), None);
    assert_eq!(env_var_as_bool(Some("".to_string())), None);
    assert_eq!(env_var_as_bool(None), None);
    assert_eq!(flag_from_parsed(Some(0)), Some(false));
}

#[test]
fn image_extent_iteration_is_row_major() {
    assert_eq!(iterate_image_extent(3, 2), vec![(0, 0), (1, 0), (2, 0), (0, 1), (1, 1), (2, 1)]);
    assert!(iterate_image_extent(0, 5).is_empty());
    let e2 = tuple_to_extent2d((4, 5));
    assert_eq!((e2.width, e2.height), (4, 5));
    let e3 = tuple_to_extent3d((4, 5));
    assert_eq!((e3.width, e3.height, e3.depth), (4, 5, 1));
}

#[test]
fn crate_version_is_packed() {
    assert_eq!(parse_crate_version("0", "1", "0"), Some(1 << 12));
    assert_eq!(parse_crate_version("1", "2", "3"), Some((1 << 22) | (2 << 12) | 3));
    assert_eq!(parse_crate_version("+1", "0", "0"), Some(1 << 22));
    assert_eq!(parse_crate_version("-1", "0", "0"), None);
    assert_eq!(parse_crate_version("1", "x", "0"), None);
    assert_eq!(parse_crate_version("4294967296", "0", "0"), None);
    assert_eq!(crate_version_from_parts(Some(0), Some(1), None), None);
}

#[test]
fn error_descriptions() {
    let e = SrError::new_with_backtrace(None, "boom".to_string(), None);
    assert_eq!(e.description(), "boom (set RUST_BACKTRACE=1 to get a backtrace)");
    let e = SrError::new_with_backtrace(Some(ErrorSource::Custom("x".to_string())), "boom".to_string(), Some("bt".to_string()));
    assert_eq!(e.description(), "boom\nbt");
    assert_eq!(e.to_text(), "boom\nbt");
    let e = SrError::from_vk_result(-7);
    assert!(matches!(e.get_source(), Some(ErrorSource::Vulkan(-7))));
    assert!(e.description().starts_with("UNEXPECTED VULKAN ERROR: Extension specified does not exist"));
    assert_eq!(ErrorSource::Vulkan(-7).to_text(), "Extension specified does not exist");
    assert_eq!(ErrorSource::RenderGraph(GraphError::SwapchainAlreadyImported).to_text(), "Graph error SwapchainAlreadyImported ");
    let g = SrError::from_gltf_message("bad file".to_string());
    assert!(g.description().starts_with("UNEXPECTED GLTF ERROR: bad file"));
    let a = SrError::from_allocator_message("oom".to_string());
    assert!(a.description().starts_with("UNEXPECTED GPU_ALLOCATOR ERROR: oom"));
    assert_eq!(SrError::new_custom("c".to_string()).description(), "c");
}

#[test]
fn pipelines_are_interned_by_shader_contents() {
    let mut cache: PipelineCache<String> = PipelineCache::new();
    let denoise = vec![7u8, 7, 7];
    let a = cache.intern_compute(&denoise, || Ok("denoise".to_string())).unwrap();
    let b = cache.intern_compute(&denoise.clone(), || panic!("the same shader is built once")).unwrap();
    assert_eq!(a, b);
    let rt = cache.intern_raytracing(&vec![1], &vec![2], &vec![3], &vec![4], || Ok("rt".to_string())).unwrap();
    assert_eq!(rt, PipelineHandle(1));
    let rt_final = cache.intern_raytracing(&vec![9], &vec![2], &vec![3], &vec![4], || Ok("rt final".to_string())).unwrap();
    assert_eq!(rt_final, PipelineHandle(2));
    let g = cache.intern_graphics(&vec![1], &vec![2], 37, || Ok("raster".to_string())).unwrap();
    assert_eq!(g, PipelineHandle(3));
    assert_eq!(cache.intern_graphics(&vec![1], &vec![2], 37, || panic!("cached")).unwrap(), g);
    let failed = cache.intern_graphics(&vec![1], &vec![2], 44, || Err(SrError::new_custom("no device".to_string())));
    assert_eq!(failed.unwrap_err().description(), "no device");
    assert_eq!(cache.len(), 4);
    assert_eq!(cache.get(rt_final).map(|s| s.as_str()), Some("rt final"));
}
