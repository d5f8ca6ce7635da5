use sunray::error::ErrorSource;
use sunray::render_graph::access::AccessType;
use sunray::render_graph::error::GraphError;
use sunray::render_graph::graph::RenderGraph;
use sunray::render_graph::pass_builder::{AnyRenderPass, ComputeRenderPassBuilder, PassCommonDataBuilder, ShaderSource};
use sunray::render_graph::resource::{
    Extent3D, GraphResourceDesc, GraphResourceImportInfo, GraphResourceInfo, Handle, ImageDesc, MemoryLocation, ResourceKind,
};

fn image(size: u32, name: &str) -> GraphResourceDesc {
    GraphResourceDesc::Image(ImageDesc {
        extent: Extent3D { width: size, height: size, depth: 1 },
        format: 37,
        tiling: 0,
        location: MemoryLocation::GpuOnly,
        usage: 8 | 1,
        name: name.to_string(),
    })
}

fn compute_pass(rg: &mut RenderGraph, name: &str, reads: &[(Handle, AccessType)], writes: &[(Handle, AccessType)]) -> AnyRenderPass {
    let mut common = PassCommonDataBuilder::new(rg, name.to_string());
    for (h, a) in reads {
        common.read(h, *a).expect("read");
    }
    for (h, a) in writes {
        common.write(h, *a).expect("write");
    }
    let pass = ComputeRenderPassBuilder::default()
        .common(common.build())
        .add_shader(ShaderSource::Spirv(vec![1, 2, 3, 4]))
        .entry_point("main".to_string())
        .build()
        .expect("build compute pass");
    AnyRenderPass::Compute(pass)
}

#[test]
fn compile_runs_passes_in_topo_order() {
    let mut rg = RenderGraph::new();
    let img_a = rg.create_resource(image(64, "img_a"));
    let img_b = rg.create_resource(image(64, "img_b"));

    // Pass 0: write img_a.
    let producer = compute_pass(&mut rg, "producer", &[], &[(img_a, AccessType::ComputeShaderWrite)]);
    rg.add_render_pass(producer);
    // Pass 1: read img_a, write img_b -> depends on pass 0.
    let consumer = compute_pass(
        &mut rg,
        "consumer",
        &[(img_a, AccessType::ComputeShaderReadOther)],
        &[(img_b, AccessType::ComputeShaderWrite)],
    );
    rg.add_render_pass(consumer);

    let compiled = rg.compile().expect("compile failed");

    // Both passes run, producer before consumer.
    let order: Vec<usize> = compiled.schedule.iter().map(|s| s.pass_id).collect();
    assert_eq!(order, vec![0, 1], "topo order violated");
    // At least one barrier: producer -> consumer read-after-write on img_a.
    let recorded: usize = compiled.schedule.iter().map(|s| s.barriers.len()).sum();
    assert!(recorded > 0, "expected at least one barrier between producer and consumer");
    assert!(compiled.schedule[0].barriers.is_empty());
    let b = compiled.schedule[1].barriers[0];
    assert_eq!(b.resource_id, img_a.id);
    assert_eq!(b.prev_access, AccessType::ComputeShaderWrite);
    assert_eq!(b.next_access, AccessType::ComputeShaderReadOther);
}

#[test]
fn compile_collects_end_states_and_init_barriers() {
    let mut rg = RenderGraph::new();
    let img_a = rg.create_resource(image(16, "a"));
    let unused = rg.create_resource(image(16, "unused"));
    let imported = rg.import(GraphResourceImportInfo::Image { access_type: AccessType::General });
    let p0 = compute_pass(&mut rg, "p0", &[(imported, AccessType::ComputeShaderReadOther)], &[(img_a, AccessType::ComputeShaderWrite)]);
    rg.add_render_pass(p0);
    let p1 = compute_pass(&mut rg, "p1", &[(img_a, AccessType::ComputeShaderReadOther)], &[]);
    rg.add_render_pass(p1);
    let compiled = rg.compile().unwrap();

    let ends = rg.resource_end_states();
    assert_eq!(ends.len(), 3);
    assert_eq!(ends[0].last_use_pass, Some(1));
    assert_eq!(ends[0].end_access, AccessType::ComputeShaderReadOther);
    assert!(ends[0].internal);
    assert_eq!(ends[1].last_use_pass, None);
    assert_eq!(ends[1].end_access, AccessType::Nothing);
    assert_eq!(ends[2].last_use_pass, Some(0));
    assert!(!ends[2].internal);
    assert!(rg.end_state(&unused).is_some());
    assert!(rg.end_state(&Handle { id: 7, kind: ResourceKind::Image }).is_none());

    // Only the created image that is used gets a transition out of the undefined layout.
    assert_eq!(compiled.init_barriers.len(), 1);
    assert_eq!(compiled.init_barriers[0].resource_id, img_a.id);
    assert_eq!(compiled.init_barriers[0].prev_access, AccessType::Nothing);
    assert_eq!(compiled.init_barriers[0].next_access, AccessType::ComputeShaderWrite);

    // Lifetimes: img_a lives over passes 0..=1, the import over pass 0.
    assert_eq!(compiled.resource_usages.len(), 2);
    assert_eq!(compiled.resource_usages.key_at(0), img_a.id);
    assert_eq!(compiled.resource_usages.value_at(0).first_pass, 0);
    assert_eq!(compiled.resource_usages.value_at(0).last_pass, 1);
    assert_eq!(compiled.resource_usages.value_at(0).usages.len(), 2);
    assert_eq!(compiled.resource_usages.value_at(1).first_pass, 0);
    assert_eq!(compiled.resource_usages.value_at(1).last_pass, 0);

    // Reset clears the end states and the registry.
    rg.reset();
    assert!(rg.resource_end_states().is_empty());
    assert!(rg.resources().is_empty());
    assert!(rg.passes().is_empty());
}

#[test]
fn compile_splits_independent_passes_into_components() {
    let mut rg = RenderGraph::new();
    let a = rg.create_resource(image(8, "a"));
    let b = rg.create_resource(image(8, "b"));
    let p0 = compute_pass(&mut rg, "p0", &[], &[(a, AccessType::ComputeShaderWrite)]);
    rg.add_render_pass(p0);
    let p1 = compute_pass(&mut rg, "p1", &[], &[(b, AccessType::ComputeShaderWrite)]);
    rg.add_render_pass(p1);
    let p2 = compute_pass(&mut rg, "p2", &[(a, AccessType::ComputeShaderReadOther)], &[]);
    rg.add_render_pass(p2);
    let compiled = rg.compile().unwrap();

    assert_eq!(compiled.components.len(), 2);
    assert_eq!(compiled.components[0].passes, vec![0, 2]);
    assert_eq!(compiled.components[0].resources, vec![a.id]);
    assert_eq!(compiled.components[1].passes, vec![1]);
    assert_eq!(compiled.components[1].resources, vec![b.id]);
    assert_eq!(compiled.component_of, vec![0, 1, 0]);

    // p2 waits for p0 only.
    let pos = |p: usize| compiled.schedule.iter().position(|s| s.pass_id == p).unwrap();
    assert!(pos(0) < pos(2));
    assert_eq!(compiled.schedule[pos(2)].barriers.len(), 1);
    assert!(compiled.schedule[pos(1)].barriers.is_empty());
}

#[test]
fn write_after_reads_waits_for_every_reader() {
    let mut rg = RenderGraph::new();
    let a = rg.create_resource(image(8, "a"));
    let p0 = compute_pass(&mut rg, "w", &[], &[(a, AccessType::ComputeShaderWrite)]);
    rg.add_render_pass(p0);
    let p1 = compute_pass(&mut rg, "r1", &[(a, AccessType::ComputeShaderReadOther)], &[]);
    rg.add_render_pass(p1);
    let p2 = compute_pass(&mut rg, "r2", &[(a, AccessType::FragmentShaderReadOther)], &[]);
    rg.add_render_pass(p2);
    let p3 = compute_pass(&mut rg, "w2", &[], &[(a, AccessType::TransferWrite)]);
    rg.add_render_pass(p3);
    let compiled = rg.compile().unwrap();
    let order: Vec<usize> = compiled.schedule.iter().map(|s| s.pass_id).collect();
    let pos = |p: usize| order.iter().position(|&q| q == p).unwrap();
    assert!(pos(0) < pos(1) && pos(0) < pos(2));
    assert!(pos(1) < pos(3) && pos(2) < pos(3));
    let last = &compiled.schedule[pos(3)].barriers;
    assert_eq!(last.len(), 2);
    assert_eq!(last[0].prev_access, AccessType::ComputeShaderReadOther);
    assert_eq!(last[1].prev_access, AccessType::FragmentShaderReadOther);
    assert_eq!(last[0].next_access, AccessType::TransferWrite);
}

#[test]
fn pass_reading_and_writing_one_resource_does_not_wait_on_itself() {
    let mut rg = RenderGraph::new();
    let a = rg.create_resource(image(8, "a"));
    let p0 = compute_pass(&mut rg, "rw", &[(a, AccessType::ComputeShaderReadOther)], &[(a, AccessType::ComputeShaderWrite)]);
    rg.add_render_pass(p0);
    let compiled = rg.compile().unwrap();
    assert_eq!(compiled.schedule.len(), 1);
    assert!(compiled.schedule[0].barriers.is_empty());
}

#[test]
fn access_misuse_is_refused() {
    let mut rg = RenderGraph::new();
    let a = rg.create_resource(image(8, "a"));
    let mut common = PassCommonDataBuilder::new(&mut rg, "bad".to_string());
    let e = common.read(&a, AccessType::ComputeShaderWrite).unwrap_err();
    assert!(matches!(e.get_source(), Some(ErrorSource::RenderGraph(GraphError::IncorrectRenderAccessFlags))));
    assert!(e.description().starts_with("asked to read with such access: ComputeShaderWrite"));
    let e = common.write(&a, AccessType::ComputeShaderReadOther).unwrap_err();
    assert!(matches!(e.get_source(), Some(ErrorSource::RenderGraph(GraphError::IncorrectRenderAccessFlags))));
    assert!(e.description().starts_with("asked to write with such access: ComputeShaderReadOther"));
    let data = common.build();
    assert!(data.read.is_empty() && data.write.is_empty());
    assert_eq!(data.id, 0);
    assert_eq!(data.name, "bad");
}

#[test]
fn second_swapchain_import_is_refused() {
    let mut rg = RenderGraph::new();
    let ext = Extent3D { width: 800, height: 600, depth: 1 };
    let h = rg.import_swapchain(ext, 44).expect("first import");
    assert_eq!(h.id, 0);
    assert_eq!(h.kind, ResourceKind::Image);
    assert_eq!(rg.swapchain_resource_id(), Some(0));
    assert!(matches!(
        rg.resources()[0],
        GraphResourceInfo::Imported(GraphResourceImportInfo::SwapchainImage { extent, format: 44 }) if extent == ext
    ));
    let e = rg.import_swapchain(ext, 44).unwrap_err();
    assert!(matches!(e.get_source(), Some(ErrorSource::RenderGraph(GraphError::SwapchainAlreadyImported))));
    assert!(e.description().starts_with("render graph already has a swapchain import"));
    assert_eq!(rg.resources().len(), 1);
    rg.reset();
    assert_eq!(rg.swapchain_resource_id(), None);
    assert!(rg.import_swapchain(ext, 44).is_ok());
}

#[test]
fn compile_leaves_the_swapchain_ready_to_present() {
    let mut rg = RenderGraph::new();
    let src = rg.create_resource(image(8, "src"));
    let sc = rg.import_swapchain(Extent3D { width: 8, height: 8, depth: 1 }, 44).unwrap();
    let blit = compute_pass(&mut rg, "to swapchain", &[(src, AccessType::ComputeShaderReadOther)], &[(sc, AccessType::ComputeShaderWrite)]);
    rg.add_render_pass(blit);
    let compiled = rg.compile().unwrap();
    let end = rg.end_state(&sc).unwrap();
    assert_eq!(end.last_use_pass, Some(0));
    assert_eq!(end.end_access, AccessType::Present);
    let b = compiled.present_barrier.expect("present transition");
    assert_eq!(b.resource_id, sc.id);
    assert_eq!(b.prev_access, AccessType::ComputeShaderWrite);
    assert_eq!(b.next_access, AccessType::Present);
    // Without a swapchain there is nothing to present.
    let mut rg2 = RenderGraph::new();
    let only = rg2.create_resource(image(8, "only"));
    let p = compute_pass(&mut rg2, "p", &[], &[(only, AccessType::ComputeShaderWrite)]);
    rg2.add_render_pass(p);
    assert!(rg2.compile().unwrap().present_barrier.is_none());
}

#[test]
fn temporal_resources_get_one_copy_per_frame_in_flight() {
    let mut rg = RenderGraph::new();
    let _x = rg.create_resource(image(4, "x"));
    let hs = rg.create_temporal_resource(image(4, "t"), 7);
    assert_eq!(hs[0].id, 1);
    assert_eq!(hs[1].id, 2);
    assert_eq!(rg.temporal_resources().len(), 1);
    assert_eq!(rg.temporal_resources()[0].frame_of_creation, 7);
    assert_eq!(rg.temporal_resources()[0].ids, [1, 2]);
    assert!(matches!(rg.resources()[2], GraphResourceInfo::Created(GraphResourceDesc::Image(_))));
    rg.reset();
    assert_eq!(rg.temporal_resources().len(), 1);
}

#[test]
fn pass_ids_count_up() {
    let mut rg = RenderGraph::new();
    assert_eq!(rg.next_pass_id(), 0);
    assert_eq!(rg.next_pass_id(), 1);
    rg.reset();
    assert_eq!(rg.next_pass_id(), 0);
}
