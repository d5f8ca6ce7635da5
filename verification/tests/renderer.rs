use std::cell::RefCell;
use std::rc::Rc;
use sunray::demo::{
    apply_demo_action, application_name, demo_event_action, enumerate_required_extensions, instance_layers, select_candidate_device,
    AcquireAction, AcquireOutcome, CandidateDevice, Demo, DemoAction, DemoEvent, DisplayKind, FlushOutcome,
    InstanceParams, PhysicalDeviceType, TriangleFrameState,
};
use sunray::error::{ErrorSource, SrError};
use sunray::integration::{SunrayWindows, SunrayInstance, 
    choose_window, extract_scene, plan_render_world, update_windows, ExtractedScene, SunrayRenderPlugin, SunrayScene,
    WindowReport,
};
use sunray::profiling::{debug_label_text, Scope};
use sunray::render_graph::pass_builder::{
    BuilderError, ComputeRenderPassBuilder, PassCommonData, RayTracingShaderDesc, RaytracingRenderPassBuilder, ShaderSource,
};
use sunray::render_graph::resource::Extent3D;
use sunray::renderer::{
    blit_offsets, dispatch_groups, group_instances, needs_resize, pad_if_empty, per_pixel_buffer_size,
    renderer_image_format, use_srgb_flag, DiagnosticTool, FrameCounters, Renderer, RendererConfig, ResourceKey, ResourceKeyGen,
    SceneGroups, FORMAT_R8G8B8A8_SRGB,
};
use sunray::scene::{Node, Primitive, Scene};

fn prim(unique_key: u64, material: u32) -> Primitive {
    Primitive { unique_key, material }
}

#[test]
fn scene_plan_shares_acceleration_structures() {
    let child = Node { mesh: Some(vec![prim(7, 2)]), children: vec![] };
    let root0 = Node { mesh: Some(vec![prim(7, 0), prim(9, 1)]), children: vec![child] };
    let root1 = Node { mesh: None, children: vec![Node { mesh: Some(vec![prim(9, 3)]), children: vec![] }] };
    let scene = Scene::new(vec![root0, root1]).unwrap();
    assert_eq!(scene.nodes().len(), 2);
    let plan = scene.load();
    assert_eq!(plan.blas_keys, vec![7, 9]);
    assert_eq!(plan.materials, vec![0, 1, 2, 3]);
    assert_eq!(plan.instances, vec![(0, vec![0]), (1, vec![0]), (0, vec![0, 0]), (1, vec![1, 0])]);
}

#[test]
fn scene_groups_and_keys() {
    let mut groups: SceneGroups<ResourceKey> = SceneGroups::new();
    let g0 = groups.begin_group();
    let g1 = groups.begin_group();
    assert_eq!((g0, g1), (0, 1));
    let mut gen = ResourceKeyGen::new(g1);
    let k0 = gen.next_key();
    let k1 = gen.next_key();
    assert_eq!(k0, ResourceKey { group: 1, index: 0 });
    assert_eq!(k1, ResourceKey { group: 1, index: 1 });
    groups.insert_group(g1, vec![k0, k1]);
    assert_eq!(groups.remove_group(g1), Some(vec![k0, k1]));
    assert_eq!(groups.remove_group(g1), None);
    assert_eq!(groups.remove_group(g0), None);
}

#[test]
fn instances_grouped_by_acceleration_structure() {
    let keys = vec!['a', 'b', 'c'];
    let grouped = group_instances(&keys, vec![(1, 10), (0, 20), (1, 30)]);
    assert_eq!(grouped, vec![('a', vec![20]), ('b', vec![10, 30]), ('c', vec![])]);
}

#[test]
fn frame_counters_and_config() {
    let mut c = FrameCounters::new();
    assert_eq!(c.upcoming_frame(), 1);
    assert_eq!(c.advance(), 0);
    assert_eq!(c.advance(), 1);
    assert_eq!(c.absolute, 2);
    c.restart_history();
    assert_eq!(c.advance(), 0);
    assert_eq!(c.absolute, 3);
    let cfg = RendererConfig::from_flags(None, None, Some(true), true);
    assert_eq!(cfg, RendererConfig { with_validation_layer: true, with_gpuav: false, diagnostics: DiagnosticTool::NvidiaAftermath });
    let cfg = RendererConfig::from_flags(Some(false), Some(true), Some(false), true);
    assert_eq!(cfg, RendererConfig { with_validation_layer: false, with_gpuav: true, diagnostics: DiagnosticTool::Off });
    assert!(!RendererConfig::from_flags(None, None, None, false).with_validation_layer);
}

#[test]
fn per_frame_helpers() {
    assert_eq!(pad_if_empty(Vec::<u8>::new(), 9), vec![9]);
    assert_eq!(pad_if_empty(vec![1, 2], 9), vec![1, 2]);
    let a = Extent3D { width: 2, height: 3, depth: 1 };
    assert!(!needs_resize(a, a));
    assert!(needs_resize(a, Extent3D { width: 2, height: 4, depth: 1 }));
    assert_eq!(per_pixel_buffer_size(Extent3D { width: 10, height: 20, depth: 1 }, 48), 9600);
    assert_eq!(renderer_image_format(0), FORMAT_R8G8B8A8_SRGB);
    assert_eq!(renderer_image_format(50), 50);
    assert_eq!(use_srgb_flag(FORMAT_R8G8B8A8_SRGB), 1);
    assert_eq!(use_srgb_flag(37), 0);
    assert_eq!(dispatch_groups(32, 33), [2, 3, 1]);
    assert_eq!(dispatch_groups(0, 1), [0, 1, 1]);
    assert_eq!(blit_offsets(Extent3D { width: 5, height: 6, depth: 1 }), [[0, 0, 0], [5, 6, 1]]);
}

#[test]
fn scene_request_and_extraction() {
    let mut scene = SunrayScene::with_gltf("room.glb".to_string());
    assert_eq!(scene.generation, 1);
    let mut out = ExtractedScene { gltf_path: None, generation: 0 };
    extract_scene(&mut out, &scene);
    assert_eq!(out.gltf_path.as_deref(), Some("room.glb"));
    assert_eq!(out.generation, 1);
    scene.request("hall.glb".to_string());
    assert_eq!(scene.generation, 2);
    extract_scene(&mut out, &scene);
    assert_eq!(out.gltf_path.as_deref(), Some("hall.glb"));
    let d = SunrayScene::default();
    assert!(d.gltf_path.is_none() && d.generation == 0);
    assert_eq!(SunrayRenderPlugin::default().image_format, FORMAT_R8G8B8A8_SRGB);
}

#[test]
fn window_table_and_render_world_plan() {
    let reports = vec![
        WindowReport { entity: 5, physical_width: 0, physical_height: 600, is_primary: false },
        WindowReport { entity: 9, physical_width: 800, physical_height: 600, is_primary: true },
    ];
    let t1 = update_windows(&vec![], &reports);
    assert_eq!(t1.len(), 2);
    assert_eq!(t1[0].physical_size, (1, 600));
    assert!(!t1[0].size_changed && !t1[1].size_changed);
    assert_eq!(choose_window(&t1), Some(1));
    let reports2 = vec![WindowReport { entity: 9, physical_width: 1024, physical_height: 600, is_primary: true }];
    let t2 = update_windows(&t1, &reports2);
    assert_eq!(t2.len(), 1);
    assert!(t2[0].size_changed);
    let plan = plan_render_world(false, None, &t1, 1, true, 0);
    assert_eq!(plan.create_for, Some(1));
    assert!(plan.load_scene);
    let plan = plan_render_world(true, Some(9), &t2, 1, true, 1);
    assert_eq!(plan.resize_to, Some((1024, 600)));
    assert!(!plan.load_scene && !plan.take_generation);
    let plan = plan_render_world(true, Some(9), &t2, 2, false, 1);
    assert!(plan.take_generation && !plan.load_scene);
    assert_eq!(plan_render_world(false, None, &vec![], 2, true, 1).take_generation, false);
    assert_eq!(choose_window(&vec![]), None);
    let mut windows = SunrayWindows::new();
    windows.extract(&reports);
    windows.extract(&reports2);
    assert_eq!(windows.windows.len(), 1);
    assert!(windows.windows[0].size_changed);
    let inst = SunrayInstance { blas_index: 3 };
    assert_eq!(inst.blas_index, 3);
    assert_eq!(choose_window(&t2[..0].to_vec()), None);
}

struct Counting {
    renders: u32,
    exits: u32,
}

impl Demo for Counting {
    fn render(&mut self) -> Result<(), SrError> {
        self.renders += 1;
        Ok(())
    }

    fn on_exit(&mut self) -> Result<(), SrError> {
        self.exits += 1;
        Ok(())
    }
}

#[test]
fn demo_events() {
    assert_eq!(demo_event_action(DemoEvent::CloseRequested), DemoAction::Exit);
    assert_eq!(demo_event_action(DemoEvent::KeyPressed { escape: true }), DemoAction::Exit);
    assert_eq!(demo_event_action(DemoEvent::KeyPressed { escape: false }), DemoAction::Ignore);
    assert_eq!(demo_event_action(DemoEvent::AboutToWait), DemoAction::Render);
    let mut d = Counting { renders: 0, exits: 0 };
    assert_eq!(apply_demo_action(&mut d, DemoAction::Render).unwrap(), false);
    assert_eq!(apply_demo_action(&mut d, DemoAction::OnExit).unwrap(), false);
    assert_eq!(apply_demo_action(&mut d, DemoAction::OnResume).unwrap(), false);
    assert_eq!(apply_demo_action(&mut d, DemoAction::Exit).unwrap(), true);
    assert_eq!((d.renders, d.exits), (1, 1));
}

#[test]
fn triangle_frame_state() {
    let mut s = TriangleFrameState::new();
    assert!(!s.begin_redraw());
    assert_eq!(s.on_acquire(AcquireOutcome::Acquired { suboptimal: true }), AcquireAction::Draw);
    assert!(s.recreate_swapchain);
    assert!(s.begin_redraw());
    s.swapchain_rebuilt();
    assert_eq!(s.on_acquire(AcquireOutcome::OutOfDate), AcquireAction::SkipFrame);
    assert!(s.recreate_swapchain);
    s.swapchain_rebuilt();
    assert!(s.on_flush(FlushOutcome::Flushed));
    assert!(!s.recreate_swapchain);
    assert!(s.on_flush(FlushOutcome::OutOfDate));
    assert!(s.recreate_swapchain);
    assert!(!s.on_flush(FlushOutcome::Failed));
    assert_eq!(s.on_acquire(AcquireOutcome::Failed), AcquireAction::Abort);
    s.on_resized();
    assert_eq!(s.frame_counter, 2);
}

#[test]
fn candidate_device_prefers_discrete_gpus() {
    let devs = vec![
        CandidateDevice { supports_extensions: true, queue_families: vec![(true, true)], device_type: PhysicalDeviceType::IntegratedGpu },
        CandidateDevice { supports_extensions: false, queue_families: vec![(true, true)], device_type: PhysicalDeviceType::DiscreteGpu },
        CandidateDevice { supports_extensions: true, queue_families: vec![(true, false), (false, true), (true, true)], device_type: PhysicalDeviceType::DiscreteGpu },
        CandidateDevice { supports_extensions: true, queue_families: vec![(true, true)], device_type: PhysicalDeviceType::DiscreteGpu },
    ];
    assert_eq!(select_candidate_device(&devs), Some((2, 2)));
    assert_eq!(select_candidate_device(&devs[..2].to_vec()), Some((0, 0)));
    assert_eq!(select_candidate_device(&vec![]), None);
}

#[test]
fn instance_setup() {
    let p = InstanceParams::default();
    assert_eq!(p.app_name, "");
    assert_eq!(p.vk_api_version, 1 << 22);
    assert!(p.enable_debug_utils);
    assert_eq!(application_name("", "sunray"), "sunray");
    assert_eq!(application_name("demo", "sunray"), "demo");
    assert_eq!(enumerate_required_extensions(DisplayKind::Wayland).unwrap(), ["VK_KHR_surface", "VK_KHR_wayland_surface"]);
    assert_eq!(enumerate_required_extensions(DisplayKind::UiKit).unwrap(), ["VK_KHR_surface", "VK_EXT_metal_surface"]);
    let e = enumerate_required_extensions(DisplayKind::Other).unwrap_err();
    assert!(matches!(e.get_source(), Some(ErrorSource::Vulkan(-7))));
    assert_eq!(instance_layers(true), vec!["VK_LAYER_KHRONOS_validation"]);
    assert!(instance_layers(false).is_empty());
}

#[test]
fn profiling_scopes_and_labels() {
    let s = Scope::new("frame", true);
    let (name, _start) = s.finish().unwrap();
    assert_eq!(name, "frame");
    assert!(Scope::new("frame", false).finish().is_none());
    assert_eq!(debug_label_text("pass"), "pass");
    assert_eq!(debug_label_text("pa\0ss"), "");
}

fn common(id: u32) -> PassCommonData {
    PassCommonData { read: vec![], write: vec![], name: "p".to_string(), id }
}

fn spirv(b: u8) -> RayTracingShaderDesc {
    RayTracingShaderDesc { shader: ShaderSource::Spirv(vec![b]) }
}

#[test]
fn pass_builders_report_the_first_missing_field() {
    let e = RaytracingRenderPassBuilder::default().build().unwrap_err();
    assert!(matches!(e, BuilderError::UninitializedField(ref f) if f == "common"));
    let e = RaytracingRenderPassBuilder::default().common(common(0)).ray_gen(spirv(1)).add_closest_hit(spirv(2)).build().unwrap_err();
    assert!(matches!(e, BuilderError::UninitializedField(ref f) if f == "miss"));
    let b = RaytracingRenderPassBuilder::default()
        .common(common(3))
        .ray_gen(spirv(1))
        .add_closest_hit(spirv(2))
        .add_miss(spirv(3))
        .trace_extent([4, 5, 1]);
    let e = b.generate_render().unwrap_err();
    assert_eq!(e.description(), "generate_render: at least one any_hit shader required");
    let b = b.add_any_hit(spirv(4));
    let two_misses = RaytracingRenderPassBuilder::default()
        .common(common(3))
        .ray_gen(spirv(1))
        .add_closest_hit(spirv(2))
        .add_miss(spirv(3))
        .add_miss(spirv(5))
        .add_any_hit(spirv(4))
        .trace_extent([4, 5, 1]);
    assert_eq!(two_misses.generate_render().unwrap_err().description(), "generate_render: exactly one miss shader required");
    let plan = b.generate_render().unwrap();
    assert_eq!((plan.ray_gen, plan.miss, plan.closest_hit, plan.any_hit), (vec![1], vec![3], vec![2], vec![4]));
    assert_eq!(plan.trace_extent, [4, 5, 1]);
    let pass = b.build().unwrap();
    assert_eq!(pass.common.id, 3);
    assert_eq!(pass.any_hit.len(), 1);
    let glsl = RaytracingRenderPassBuilder::default()
        .common(common(0))
        .ray_gen(RayTracingShaderDesc { shader: ShaderSource::Glsl("a.rgen".to_string()) })
        .add_closest_hit(spirv(2))
        .add_miss(spirv(3))
        .add_any_hit(spirv(4))
        .trace_extent([1, 1, 1]);
    assert_eq!(
        glsl.generate_render().unwrap_err().description(),
        "generate_render only accepts ShaderSource::Spirv; got Glsl(\"a.rgen\")"
    );
    let no_common = RaytracingRenderPassBuilder::default()
        .ray_gen(spirv(1))
        .add_closest_hit(spirv(2))
        .add_miss(spirv(3))
        .add_any_hit(spirv(4))
        .trace_extent([1, 1, 1]);
    assert_eq!(no_common.generate_render().unwrap_err().description(), "generate_render: common not set");
    let e = ComputeRenderPassBuilder::default().common(common(0)).build().unwrap_err();
    assert!(matches!(e, BuilderError::UninitializedField(ref f) if f == "shaders"));
}

#[test]
fn renderer_bookkeeping() {
    let mut r: Renderer<&'static str, u8, ResourceKey> = Renderer::new((4, 3));
    assert_eq!(r.image_extent(), Extent3D { width: 4, height: 3, depth: 1 });
    r.add_start_of_frame_callback("setup");
    r.add_end_of_frame_callback("free-0");
    r.add_resize_callback(7);
    assert_eq!(r.take_start_of_frame_callbacks(0), Vec::<&str>::new());
    assert_eq!(r.take_start_of_frame_callbacks(1), vec!["setup"]);
    let (frame, rel) = r.begin_frame();
    assert_eq!((frame, rel), (1, 0));
    r.end_frame(frame, "free-1");
    assert_eq!(r.take_due_end_of_frame_callbacks(0), Vec::<&str>::new());
    assert_eq!(r.take_due_end_of_frame_callbacks(1), vec!["free-0", "free-1"]);
    r.add_end_of_frame_callback("free-2");
    assert_eq!(r.take_all_end_of_frame_callbacks(), vec!["free-2"]);
    assert_eq!(r.begin_frame(), (2, 1));
    assert!(!r.resize((4, 3)));
    assert_eq!(r.begin_frame(), (3, 2));
    assert!(r.resize((8, 3)));
    assert_eq!(r.begin_frame(), (4, 0));
    assert_eq!(r.resize_callbacks_mut().len(), 1);
    let g = r.begin_scene_load();
    r.finish_scene_load(g, vec![ResourceKey { group: g, index: 0 }]);
    assert_eq!(r.unload_scene(g), Some(vec![ResourceKey { group: 0, index: 0 }]));
    assert_eq!(r.unload_scene(g), None);
    assert_eq!(r.begin_scene_load(), 1);
}

#[test]
fn renderer_runs_due_callbacks_in_scheduling_order() {
    let log: Rc<RefCell<Vec<&'static str>>> = Rc::new(RefCell::new(Vec::new()));
    let mut r: Renderer<Box<dyn FnOnce()>, u8, ResourceKey> = Renderer::new((2, 2));
    let l = log.clone();
    r.add_start_of_frame_callback(Box::new(move || l.borrow_mut().push("upload")));
    let l = log.clone();
    r.add_end_of_frame_callback(Box::new(move || l.borrow_mut().push("free a")));
    let l = log.clone();
    r.add_end_of_frame_callback(Box::new(move || l.borrow_mut().push("free b")));
    r.run_start_of_frame_callbacks(0);
    assert!(log.borrow().is_empty());
    r.run_start_of_frame_callbacks(1);
    assert_eq!(*log.borrow(), vec!["upload"]);
    r.run_start_of_frame_callbacks(2);
    assert_eq!(log.borrow().len(), 1);
    let (frame, _) = r.begin_frame();
    let l = log.clone();
    r.end_frame(frame, Box::new(move || l.borrow_mut().push("free frame")));
    r.run_due_end_of_frame_callbacks(0);
    assert_eq!(log.borrow().len(), 1);
    r.run_due_end_of_frame_callbacks(1);
    assert_eq!(*log.borrow(), vec!["upload", "free a", "free b", "free frame"]);
    let l = log.clone();
    r.add_end_of_frame_callback(Box::new(move || l.borrow_mut().push("at drop")));
    r.run_all_end_of_frame_callbacks();
    assert_eq!(log.borrow().last(), Some(&"at drop"));
}

#[test]
fn resize_callbacks_run_on_every_resize() {
    let count = Rc::new(RefCell::new(0u32));
    let mut r: Renderer<u8, Box<dyn FnMut()>, ResourceKey> = Renderer::new((2, 2));
    let c = count.clone();
    r.add_resize_callback(Box::new(move || *c.borrow_mut() += 1));
    let c = count.clone();
    r.add_resize_callback(Box::new(move || *c.borrow_mut() += 10));
    if r.resize((4, 4)) {
        r.run_resize_callbacks();
    }
    r.run_resize_callbacks();
    assert_eq!(*count.borrow(), 22);
    assert_eq!(r.resize_callbacks_mut().len(), 2);
}

#[test]
fn resize_callbacks_run_only_after_a_successful_resize() {
    let count = Rc::new(RefCell::new(0u32));
    let mut r: Renderer<u8, Box<dyn FnMut()>, ResourceKey> = Renderer::new((2, 2));
    let c = count.clone();
    r.add_resize_callback(Box::new(move || *c.borrow_mut() += 1));
    let e = r.finish_resize(Err(SrError::new_custom("images".to_string())), Ok(()));
    assert_eq!(e.unwrap_err().description(), "images");
    let e = r.finish_resize(Ok(()), Err(SrError::new_custom("swapchain".to_string())));
    assert_eq!(e.unwrap_err().description(), "swapchain");
    assert_eq!(*count.borrow(), 0);
    assert!(r.finish_resize(Ok(()), Ok(())).is_ok());
    assert_eq!(*count.borrow(), 1);
}
