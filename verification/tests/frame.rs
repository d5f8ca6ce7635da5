use sunray::frame::{
    accumulation_indices, denoise_io, denoise_step_width, final_denoise_image, DenoiseImage, FrameCallbacks, FrameSlots,
    DENOISE_PASSES,
};
use sunray::frame_graph::{build_frame_graph, FrameImports, FrameShaders};
use sunray::render_graph::access::AccessType;
use sunray::render_graph::graph::RenderGraph;
use sunray::render_graph::resource::{Extent3D, GraphResourceImportInfo};

#[test]
fn due_callbacks_run_in_scheduling_order() {
    let mut q: FrameCallbacks<&'static str> = FrameCallbacks::new();
    q.schedule_next(0, "a"); // due at 1
    q.schedule_at(3, "b");
    q.schedule_next(1, "c"); // due at 2
    q.schedule_next(0, "d"); // due at 1
    assert_eq!(q.take_due(0), Vec::<&str>::new());
    assert_eq!(q.len(), 4);
    assert_eq!(q.take_due(2), vec!["a", "c", "d"]);
    assert_eq!(q.len(), 1);
    assert_eq!(q.take_due(2), Vec::<&str>::new());
    assert_eq!(q.take_due(10), vec!["b"]);
    assert_eq!(q.len(), 0);
}

#[test]
fn frame_slots_rotate() {
    let mut s = FrameSlots::new();
    let (slot0, wait0) = s.begin_frame();
    assert_eq!((slot0, wait0), (0, 0));
    s.finish_frame(slot0, 1);
    let (slot1, wait1) = s.begin_frame();
    assert_eq!((slot1, wait1), (1, 0));
    s.finish_frame(slot1, 2);
    let (slot2, wait2) = s.begin_frame();
    // The slot comes back after two frames; its last frame must be waited on.
    assert_eq!((slot2, wait2), (0, 1));
}

#[test]
fn ping_pong_indices() {
    assert_eq!(accumulation_indices(0), (0, 1));
    assert_eq!(accumulation_indices(1), (1, 0));
    assert_eq!(accumulation_indices(6), (0, 1));
    assert_eq!(denoise_io(0), (DenoiseImage::Accumulated, DenoiseImage::A));
    assert_eq!(denoise_io(1), (DenoiseImage::A, DenoiseImage::B));
    assert_eq!(denoise_io(2), (DenoiseImage::B, DenoiseImage::A));
    assert_eq!(denoise_io(7), (DenoiseImage::A, DenoiseImage::B));
    for k in 1..DENOISE_PASSES {
        assert_eq!(denoise_io(k).0, denoise_io(k - 1).1);
    }
    assert_eq!(final_denoise_image(), DenoiseImage::B);
    assert_eq!(final_denoise_image(), denoise_io(DENOISE_PASSES - 1).1);
    assert_eq!(denoise_step_width(0), 1);
    assert_eq!(denoise_step_width(3), 8);
    assert_eq!(denoise_step_width(7), 128);
}

fn shaders() -> FrameShaders {
    FrameShaders {
        ray_gen_ris: vec![1],
        ray_gen_final: vec![2],
        ray_miss: vec![3],
        closest_hit: vec![4],
        any_hit: vec![5],
        temporal_accumulation: vec![6],
        denoise: vec![7],
        postprocess: vec![8],
    }
}

fn imports() -> FrameImports {
    let img = GraphResourceImportInfo::Image { access_type: AccessType::General };
    let buf = GraphResourceImportInfo::Buffer { access_type: AccessType::AnyShaderWrite };
    FrameImports { accumulation: [img, img], denoising: [img, img], postprocess_out: img, reservoirs: [buf, buf], reservoirs_gi: [buf, buf] }
}

#[test]
fn frame_graph_runs_passes_in_declaration_order() {
    for frame_count in [0u32, 1, 2] {
        let mut rg = RenderGraph::new();
        let extent = Extent3D { width: 64, height: 32, depth: 1 };
        let h = build_frame_graph(&mut rg, &shaders(), &imports(), extent, frame_count).expect("frame graph");
        assert_eq!(rg.passes().len(), 12);
        assert_eq!(rg.resources().len(), 14);
        assert_eq!(h.raw_color.id, 0);
        assert_eq!(h.postprocess_out.id, 9);
        assert_eq!(h.reservoirs[3].id, 13);
        assert_eq!(h.denoise_step_widths, vec![1, 2, 4, 8, 16, 32, 64, 128]);
        let temporal = rg.passes()[2].common();
        let target = 5 + frame_count % 2;
        let history = 5 + (frame_count + 1) % 2;
        assert_eq!(temporal.write[0].id, target);
        assert_eq!(temporal.read[2].id, history);
        let first_denoise = rg.passes()[3].common();
        assert_eq!(first_denoise.read.len(), 4);
        assert_eq!(first_denoise.read[0].id, target);
        assert_eq!(rg.passes()[11].common().read[0].id, h.denoise_b.id);

        let compiled = rg.compile().expect("compile");
        let order: Vec<usize> = compiled.schedule.iter().map(|s| s.pass_id).collect();
        assert_eq!(order, (0..12).collect::<Vec<usize>>());
        // The final ray-tracing pass waits for the RIS pass's reservoir writes.
        let rt_final = &compiled.schedule[1].barriers;
        assert!(rt_final.iter().any(|b| b.resource_id == 10
            && b.prev_access == AccessType::AnyShaderWrite
            && b.next_access == AccessType::RayTracingShaderReadOther));
        // The five created images get their initial transitions.
        assert_eq!(compiled.init_barriers.len(), 5);
        // Everything is connected through the G-buffer.
        assert_eq!(compiled.components.len(), 1);
        // Consecutive frames swap the accumulation target and history: the
        // target is written by the temporal pass and read last by the first
        // denoise pass; the history is last read by the temporal pass.
        let t_end = rg.end_state(&h.accumulation[(frame_count % 2) as usize]).unwrap();
        assert_eq!(t_end.last_use_pass, Some(3));
        let p_end = rg.end_state(&h.accumulation[((frame_count + 1) % 2) as usize]).unwrap();
        assert_eq!(p_end.last_use_pass, Some(2));
        assert_eq!(p_end.end_access, AccessType::ComputeShaderReadOther);
    }
}

#[test]
fn frame_graph_rebuild_resets_the_graph() {
    let mut rg = RenderGraph::new();
    let extent = Extent3D { width: 8, height: 8, depth: 1 };
    build_frame_graph(&mut rg, &shaders(), &imports(), extent, 0).unwrap();
    rg.compile().unwrap();
    build_frame_graph(&mut rg, &shaders(), &imports(), extent, 1).unwrap();
    assert_eq!(rg.passes().len(), 12);
    assert_eq!(rg.resources().len(), 14);
    assert!(rg.resource_end_states().is_empty());
}
