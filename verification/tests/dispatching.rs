use voxel_compute::dispatch::{
    dispatch_size, global_dispatch, uniform_buffer_bytes, ComputeKernel, ComputeNode,
    ComputeState, DispatchOp, ExtractedGH, GlobalPipelines, PipelineStatus, PhysicsNode,
    RenderGraphSettings,
};

fn all_ready() -> PipelineStatus {
    PipelineStatus { update: true, physics: true, animation: true, rebuild: true }
}

fn none_ready() -> PipelineStatus {
    PipelineStatus { update: false, physics: false, animation: false, rebuild: false }
}

#[test]
fn dispatch_size_exact_values() {
    assert_eq!(dispatch_size(0), 0);
    assert_eq!(dispatch_size(1), 1);
    assert_eq!(dispatch_size(2), 2);
    assert_eq!(dispatch_size(8), 2);
    assert_eq!(dispatch_size(9), 3);
    assert_eq!(dispatch_size(27), 3);
    assert_eq!(dispatch_size(28), 4);
    assert_eq!(dispatch_size(1_000_000), 100);
    assert_eq!(dispatch_size(u32::MAX), 1626);
}

#[test]
fn dispatch_size_is_monotonic_over_a_range() {
    let mut prev = dispatch_size(0);
    for n in 1..2000u32 {
        let next = dispatch_size(n);
        assert!(prev <= next);
        prev = next;
    }
}

#[test]
fn state_machine_scenario() {
    // Start in Loading with pipelines not yet compiled: zero kernels dispatch.
    let gh = ExtractedGH { buffer_size: 64, texture_size: 4 };
    let mut node = ComputeNode::default();
    assert_eq!(node.state, ComputeState::Loading);

    node.update(&none_ready());
    assert_eq!(node.state, ComputeState::Loading);
    let ops = node.run(true, &none_ready(), &gh, 5, 5);
    assert!(ops.is_empty());

    // Once every pipeline reports compiled, the very next frame transitions
    // to Init and dispatch begins.
    node.update(&all_ready());
    assert_eq!(node.state, ComputeState::Init);
    let ops = node.run(true, &all_ready(), &gh, 5, 5);
    assert!(!ops.is_empty());

    // The frame after that is Update.
    node.update(&all_ready());
    assert_eq!(node.state, ComputeState::Update);
}

#[test]
fn init_frame_dispatches_even_with_compute_disabled() {
    let gh = ExtractedGH { buffer_size: 64, texture_size: 4 };
    let node = ComputeNode { state: ComputeState::Init };
    let ops = node.run(false, &all_ready(), &gh, 0, 0);
    assert!(!ops.is_empty());
}

#[test]
fn update_frame_respects_compute_enabled_flag() {
    let gh = ExtractedGH { buffer_size: 64, texture_size: 4 };
    let node = ComputeNode { state: ComputeState::Update };
    assert!(node.run(false, &all_ready(), &gh, 3, 3).is_empty());
    assert!(!node.run(true, &all_ready(), &gh, 3, 3).is_empty());
}

#[test]
fn full_plan_order_and_sizes() {
    let gh = ExtractedGH { buffer_size: 16, texture_size: 2 };
    let node = ComputeNode { state: ComputeState::Update };
    let ops = node.run(true, &all_ready(), &gh, 9, 0);
    assert_eq!(
        ops,
        vec![
            DispatchOp::UploadPhysicsData,
            DispatchOp::UploadAnimationData,
            DispatchOp::ClearGridStorage { bytes: 16 },
            DispatchOp::DispatchKernel { kernel: ComputeKernel::Update, x: 2, y: 2, z: 2 },
            DispatchOp::DispatchKernel { kernel: ComputeKernel::Physics, x: 3, y: 3, z: 3 },
            DispatchOp::DispatchKernel { kernel: ComputeKernel::Rebuild, x: 2, y: 2, z: 2 },
        ]
    );
}

#[test]
fn empty_buffers_skip_their_kernels_never_zero_workgroups() {
    let gh = ExtractedGH { buffer_size: 16, texture_size: 2 };
    let node = ComputeNode { state: ComputeState::Update };
    let ops = node.run(true, &all_ready(), &gh, 0, 0);
    for op in ops.iter() {
        if let DispatchOp::DispatchKernel { kernel, x, y, z } = op {
            assert!(*x > 0 && *y > 0 && *z > 0);
            assert!(*kernel != ComputeKernel::Physics && *kernel != ComputeKernel::Animation);
        }
    }
}

#[test]
fn missing_pipeline_skips_only_that_kernel() {
    let gh = ExtractedGH { buffer_size: 16, texture_size: 2 };
    let node = ComputeNode { state: ComputeState::Update };
    let pipelines = PipelineStatus { update: true, physics: false, animation: true, rebuild: true };
    let ops = node.run(true, &pipelines, &gh, 9, 9);
    assert_eq!(
        ops,
        vec![
            DispatchOp::UploadPhysicsData,
            DispatchOp::UploadAnimationData,
            DispatchOp::ClearGridStorage { bytes: 16 },
            DispatchOp::DispatchKernel { kernel: ComputeKernel::Update, x: 2, y: 2, z: 2 },
            DispatchOp::DispatchKernel { kernel: ComputeKernel::Animation, x: 3, y: 3, z: 3 },
            DispatchOp::DispatchKernel { kernel: ComputeKernel::Rebuild, x: 2, y: 2, z: 2 },
        ]
    );
}

#[test]
fn global_plan_runs_clear_automata_animation_in_order() {
    let gh = ExtractedGH { buffer_size: 16, texture_size: 8 };
    let settings = RenderGraphSettings::default();
    let pipelines = GlobalPipelines { clear: true, automata: true, animation: true };
    let ops = global_dispatch(&settings, &pipelines, &gh, 2);
    assert_eq!(
        ops,
        vec![
            DispatchOp::DispatchKernel { kernel: ComputeKernel::Clear, x: 8, y: 8, z: 8 },
            DispatchOp::DispatchKernel { kernel: ComputeKernel::Automata, x: 8, y: 8, z: 8 },
            DispatchOp::DispatchKernel { kernel: ComputeKernel::Animation, x: 2, y: 2, z: 2 },
        ]
    );
}

#[test]
fn global_plan_honours_per_kernel_flags() {
    let gh = ExtractedGH { buffer_size: 16, texture_size: 8 };
    let mut settings = RenderGraphSettings::default();
    settings.automata = false;
    let pipelines = GlobalPipelines { clear: true, automata: true, animation: true };
    let ops = global_dispatch(&settings, &pipelines, &gh, 0);
    assert_eq!(
        ops,
        vec![DispatchOp::DispatchKernel { kernel: ComputeKernel::Clear, x: 8, y: 8, z: 8 }]
    );
}

#[test]
fn physics_node_dispatches_then_copies() {
    let node = PhysicsNode;
    let ops = node.run(true, true, 28, 1000);
    assert_eq!(
        ops,
        vec![
            DispatchOp::DispatchKernel { kernel: ComputeKernel::Physics, x: 4, y: 4, z: 4 },
            DispatchOp::CopyPhysicsToHost { byte_length: 4000 },
        ]
    );
    // With an empty buffer only the copy remains.
    let ops = node.run(true, true, 0, 8);
    assert_eq!(ops, vec![DispatchOp::CopyPhysicsToHost { byte_length: 32 }]);
    // Disabled stage or missing pipeline: nothing at all.
    assert!(node.run(false, true, 28, 1000).is_empty());
    assert!(node.run(true, false, 28, 1000).is_empty());
}

#[test]
fn render_graph_settings_default_enables_all_but_denoise() {
    let s = RenderGraphSettings::default();
    assert!(s.clear && s.automata && s.animation && s.voxelization && s.rebuild && s.physics && s.trace);
    assert!(!s.denoise);
}

#[test]
fn extracted_gh_sizes_from_bit_length() {
    let gh = ExtractedGH::extract_resource(1024, 16);
    assert_eq!(gh.buffer_size, 128);
    assert_eq!(gh.texture_size, 16);
}

#[test]
fn uniform_buffer_little_endian_layout() {
    let bytes = uniform_buffer_bytes(1.0f32.to_bits(), 0.5f32.to_bits());
    assert_eq!(bytes, vec![0x00, 0x00, 0x80, 0x3F, 0x00, 0x00, 0x00, 0x3F]);
}
