//! Compute dispatch scheduling: pipeline-readiness state machine, workgroup
//! sizing, and the per-frame kernel dispatch plans.
//!
//! A frame-graph node owns a small state machine (`Loading` until every
//! compute pipeline has compiled, one `Init` frame, then `Update` forever).
//! While dispatch is active it issues a fixed dependency-ordered chain of
//! operations; the caller executes the returned plan against the device
//! queue in order.

use vstd::prelude::*;

verus! {

/// Readiness of the asynchronously compiled compute pipelines of the
/// per-view grid chain.
#[derive(Clone, Copy, PartialEq, Eq, Structural, Debug)]
pub struct PipelineStatus {
    pub update: bool,
    pub physics: bool,
    pub animation: bool,
    pub rebuild: bool,
}

impl PipelineStatus {
    /// Every required pipeline reports compiled.
    pub open spec fn all_compiled(self) -> bool {
        self.update && self.physics && self.animation && self.rebuild
    }
}

/// Readiness of the frame-global compute pipelines.
#[derive(Clone, Copy, PartialEq, Eq, Structural, Debug)]
pub struct GlobalPipelines {
    pub clear: bool,
    pub automata: bool,
    pub animation: bool,
}

/// Per-kernel enable flags for the frame graph, for selectively freezing
/// parts of the simulation.
#[derive(Clone, Copy, PartialEq, Eq, Structural, Debug)]
pub struct RenderGraphSettings {
    pub clear: bool,
    pub automata: bool,
    pub animation: bool,
    pub voxelization: bool,
    pub rebuild: bool,
    pub physics: bool,
    pub trace: bool,
    pub denoise: bool,
}

impl Default for RenderGraphSettings {
    /// Every stage enabled except denoising.
    fn default() -> (r: Self)
        ensures
            r.clear && r.automata && r.animation && r.voxelization && r.rebuild && r.physics
                && r.trace,
            !r.denoise,
    {
        RenderGraphSettings {
            clear: true,
            automata: true,
            animation: true,
            voxelization: true,
            rebuild: true,
            physics: true,
            trace: true,
            denoise: false,
        }
    }
}

/// Grid hierarchy sizing: the byte length of the backing storage to
/// zero-fill each frame, and the per-axis dimension of the grid texture,
/// which is the workgroup count of whole-grid kernels.
#[derive(Clone, Copy, PartialEq, Eq, Structural, Debug)]
pub struct ExtractedGH {
    pub buffer_size: usize,
    pub texture_size: u32,
}

impl ExtractedGH {
    /// Derives the sizing values from the grid hierarchy's final bit length
    /// and texture dimension.
    pub fn extract_resource(final_length: usize, texture_size: u32) -> (r: Self)
        ensures
            r.buffer_size == final_length / 8,
            r.texture_size == texture_size,
    {
        ExtractedGH { buffer_size: final_length / 8, texture_size }
    }
}

/// The dispatch scheduler's lifecycle.
#[derive(Clone, Copy, PartialEq, Eq, Structural, Debug)]
pub enum ComputeState {
    Loading,
    Init,
    Update,
}

/// One state-machine step per frame: leave `Loading` only once every
/// pipeline has compiled, spend exactly one frame in `Init`, then stay in
/// `Update`.
pub open spec fn compute_state_step(s: ComputeState, pipelines_ready: bool) -> ComputeState {
    match s {
        ComputeState::Loading => if pipelines_ready {
            ComputeState::Init
        } else {
            ComputeState::Loading
        },
        ComputeState::Init => ComputeState::Update,
        ComputeState::Update => ComputeState::Update,
    }
}

/// The frame-graph node owning the dispatch state machine.
pub struct ComputeNode {
    pub state: ComputeState,
}

impl Default for ComputeNode {
    fn default() -> (r: Self)
        ensures
            r.state == ComputeState::Loading,
    {
        ComputeNode { state: ComputeState::Loading }
    }
}

impl ComputeNode {
    /// Advances the state machine by one frame given the current pipeline
    /// readiness.
    pub fn update(&mut self, pipelines: &PipelineStatus)
        ensures
            final(self).state == compute_state_step(old(self).state, pipelines.all_compiled()),
    {
        match self.state {
            ComputeState::Loading => {
                if pipelines.update && pipelines.physics && pipelines.animation
                    && pipelines.rebuild {
                    self.state = ComputeState::Init;
                }
            },
            ComputeState::Init => {
                self.state = ComputeState::Update;
            },
            ComputeState::Update => {},
        }
    }

    /// Produces this frame's ordered dispatch plan for the per-view chain.
    pub fn run(
        &self,
        enable_compute: bool,
        pipelines: &PipelineStatus,
        gh: &ExtractedGH,
        physics_records: u32,
        animation_records: u32,
    ) -> (ops: Vec<DispatchOp>)
        ensures
            ops@ == compute_node_plan(
                self.state,
                enable_compute,
                *pipelines,
                *gh,
                physics_records,
                animation_records,
            ),
    {
        let mut ops: Vec<DispatchOp> = Vec::new();
        if self.state == ComputeState::Loading || !(enable_compute || self.state
            == ComputeState::Init) {
            proof {
                assert(ops@ =~= compute_node_plan(
                    self.state,
                    enable_compute,
                    *pipelines,
                    *gh,
                    physics_records,
                    animation_records,
                ));
            }
            return ops;
        }
        ops.push(DispatchOp::UploadPhysicsData);
        ops.push(DispatchOp::UploadAnimationData);
        ops.push(DispatchOp::ClearGridStorage { bytes: gh.buffer_size });
        if pipelines.update {
            ops.push(DispatchOp::DispatchKernel {
                kernel: ComputeKernel::Update,
                x: gh.texture_size,
                y: gh.texture_size,
                z: gh.texture_size,
            });
        }
        if pipelines.physics && physics_records >= 1 {
            let d = dispatch_size(physics_records);
            ops.push(DispatchOp::DispatchKernel {
                kernel: ComputeKernel::Physics,
                x: d,
                y: d,
                z: d,
            });
        }
        if pipelines.animation && animation_records >= 1 {
            let d = dispatch_size(animation_records);
            ops.push(DispatchOp::DispatchKernel {
                kernel: ComputeKernel::Animation,
                x: d,
                y: d,
                z: d,
            });
        }
        if pipelines.rebuild {
            ops.push(DispatchOp::DispatchKernel {
                kernel: ComputeKernel::Rebuild,
                x: gh.texture_size,
                y: gh.texture_size,
                z: gh.texture_size,
            });
        }
        proof {
            assert(ops@ =~= compute_node_plan(
                self.state,
                enable_compute,
                *pipelines,
                *gh,
                physics_records,
                animation_records,
            ));
        }
        ops
    }
}

/// The compute kernel entry points.
#[derive(Clone, Copy, PartialEq, Eq, Structural, Debug)]
pub enum ComputeKernel {
    Update,
    Physics,
    Animation,
    Rebuild,
    Clear,
    Automata,
}

/// One operation of a frame's dispatch plan, in issue order.
#[derive(Clone, Copy, PartialEq, Eq, Structural, Debug)]
pub enum DispatchOp {
    /// Re-upload the current frame's physics buffer to device memory.
    UploadPhysicsData,
    /// Re-upload the current frame's animation/decoration buffer.
    UploadAnimationData,
    /// Zero-fill the grid hierarchy's backing storage.
    ClearGridStorage { bytes: usize },
    /// Dispatch a kernel with the given workgroup counts.
    DispatchKernel { kernel: ComputeKernel, x: u32, y: u32, z: u32 },
    /// Copy the device-side physics buffer to the host-visible buffer.
    CopyPhysicsToHost { byte_length: u64 },
}

/// Whether any kernel may be dispatched this frame: never while `Loading`;
/// always during the single `Init` frame; during `Update` only while the
/// global compute-enabled flag is set.
pub open spec fn dispatch_active(state: ComputeState, enable_compute: bool) -> bool {
    state != ComputeState::Loading && (enable_compute || state == ComputeState::Init)
}

pub open spec fn kernel_if(present: bool, op: DispatchOp) -> Seq<DispatchOp> {
    if present {
        seq![op]
    } else {
        Seq::empty()
    }
}

pub open spec fn grid_kernel(kernel: ComputeKernel, texture_size: u32) -> DispatchOp {
    DispatchOp::DispatchKernel { kernel, x: texture_size, y: texture_size, z: texture_size }
}

pub open spec fn sized_kernel(kernel: ComputeKernel, records: u32) -> DispatchOp {
    DispatchOp::DispatchKernel {
        kernel,
        x: dispatch_size_spec(records as int) as u32,
        y: dispatch_size_spec(records as int) as u32,
        z: dispatch_size_spec(records as int) as u32,
    }
}

/// The per-view dispatch plan: upload both object buffers and zero the grid
/// storage, run the whole-grid update kernel, run the physics and animation
/// kernels only over non-empty buffers, then rebuild the grid hierarchy.
/// A kernel whose pipeline is absent is skipped, not an error.
pub open spec fn compute_node_plan(
    state: ComputeState,
    enable_compute: bool,
    pipelines: PipelineStatus,
    gh: ExtractedGH,
    physics_records: u32,
    animation_records: u32,
) -> Seq<DispatchOp> {
    if !dispatch_active(state, enable_compute) {
        Seq::empty()
    } else {
        seq![
            DispatchOp::UploadPhysicsData,
            DispatchOp::UploadAnimationData,
            DispatchOp::ClearGridStorage { bytes: gh.buffer_size },
        ] + kernel_if(pipelines.update, grid_kernel(ComputeKernel::Update, gh.texture_size))
            + kernel_if(
            pipelines.physics && physics_records >= 1,
            sized_kernel(ComputeKernel::Physics, physics_records),
        ) + kernel_if(
            pipelines.animation && animation_records >= 1,
            sized_kernel(ComputeKernel::Animation, animation_records),
        ) + kernel_if(pipelines.rebuild, grid_kernel(ComputeKernel::Rebuild, gh.texture_size))
    }
}

/// Workgroup count `d` is the cube-root ceiling of the record count: the
/// least `d` whose cube covers `n`.
pub open spec fn is_dispatch_size(n: int, d: int) -> bool {
    &&& 0 <= d
    &&& d * d * d >= n
    &&& d > 0 ==> (d - 1) * (d - 1) * (d - 1) < n
}

pub open spec fn dispatch_size_spec(n: int) -> int {
    choose|d: int| is_dispatch_size(n, d)
}

pub proof fn lemma_dispatch_size_unique(n: int, d1: int, d2: int)
    requires
        is_dispatch_size(n, d1),
        is_dispatch_size(n, d2),
    ensures
        d1 == d2,
{
    if d1 < d2 {
        assert(d1 * d1 * d1 <= (d2 - 1) * (d2 - 1) * (d2 - 1)) by (nonlinear_arith)
            requires
                0 <= d1 <= d2 - 1,
        ;
    } else if d2 < d1 {
        assert(d2 * d2 * d2 <= (d1 - 1) * (d1 - 1) * (d1 - 1)) by (nonlinear_arith)
            requires
                0 <= d2 <= d1 - 1,
        ;
    }
}

pub proof fn lemma_dispatch_size_exists(n: int)
    requires
        0 <= n,
    ensures
        is_dispatch_size(n, dispatch_size_spec(n)),
    decreases n,
{
    if n == 0 {
        assert(is_dispatch_size(0, 0));
    } else {
        lemma_dispatch_size_exists(n - 1);
        let d0 = dispatch_size_spec(n - 1);
        if d0 * d0 * d0 >= n {
            assert(is_dispatch_size(n, d0));
        } else {
            assert((d0 + 1) * (d0 + 1) * (d0 + 1) > d0 * d0 * d0) by (nonlinear_arith)
                requires
                    0 <= d0,
            ;
            assert(is_dispatch_size(n, d0 + 1));
        }
    }
}

/// Dispatch-size monotonicity: more records never need fewer workgroups.
pub proof fn lemma_dispatch_size_monotonic(n: int, m: int)
    requires
        0 <= n <= m,
    ensures
        dispatch_size_spec(n) <= dispatch_size_spec(m),
{
    lemma_dispatch_size_exists(n);
    lemma_dispatch_size_exists(m);
    let dn = dispatch_size_spec(n);
    let dm = dispatch_size_spec(m);
    if dn > dm {
        assert(dm * dm * dm <= (dn - 1) * (dn - 1) * (dn - 1)) by (nonlinear_arith)
            requires
                0 <= dm <= dn - 1,
        ;
    }
}

/// A non-empty buffer always needs at least one workgroup.
pub proof fn lemma_dispatch_size_positive(n: int)
    requires
        1 <= n,
    ensures
        1 <= dispatch_size_spec(n),
{
    lemma_dispatch_size_exists(n);
}

fn cube_ge(d: u64, n: u64) -> (r: bool)
    requires
        d <= 1626,
    ensures
        r == (d * d * d >= n),
{
    proof {
        assert(d * d <= 1626 * 1626 && d * d * d <= 1626 * 1626 * 1626) by (nonlinear_arith)
            requires
                d <= 1626,
        ;
    }
    let c = d * d * d;
    c >= n
}

/// Computes the cube-root ceiling of the record count: the workgroup count
/// in each of the three dispatch dimensions.
pub fn dispatch_size(record_count: u32) -> (d: u32)
    ensures
        is_dispatch_size(record_count as int, d as int),
        d == dispatch_size_spec(record_count as int),
{
    let n = record_count as u64;
    let mut d: u64 = 0;
    while !cube_ge(d, n)
        invariant
            n == record_count,
            n <= u32::MAX,
            d <= 1626,
            d > 0 ==> (d - 1) * (d - 1) * (d - 1) < n,
        decreases 1626 - d,
    {
        proof {
            assert(d * d * d < n);
            assert(d <= 1625) by (nonlinear_arith)
                requires
                    d * d * d < n,
                    n <= u32::MAX,
                    0 <= d,
            ;
            assert((d + 1) * (d + 1) * (d + 1) > d * d * d) by (nonlinear_arith)
                requires
                    0 <= d,
            ;
        }
        d = d + 1;
    }
    proof {
        assert(d * d * d >= n);
        assert(is_dispatch_size(n as int, d as int));
        assert(d <= u32::MAX);
        let ds = dispatch_size_spec(n as int);
        assert(exists|dd: int| is_dispatch_size(n as int, dd));
        assert(is_dispatch_size(n as int, ds));
        lemma_dispatch_size_unique(n as int, d as int, ds);
    }
    d as u32
}

/// The frame-global dispatch plan that precedes the per-view chain:
/// clear, then automata, then animation, each gated by its enable flag and
/// its pipeline's readiness, with the animation kernel skipped over an
/// empty buffer.
pub open spec fn global_compute_plan(
    settings: RenderGraphSettings,
    pipelines: GlobalPipelines,
    gh: ExtractedGH,
    animation_records: u32,
) -> Seq<DispatchOp> {
    kernel_if(settings.clear && pipelines.clear, grid_kernel(ComputeKernel::Clear, gh.texture_size))
        + kernel_if(
        settings.automata && pipelines.automata,
        grid_kernel(ComputeKernel::Automata, gh.texture_size),
    ) + kernel_if(
        settings.animation && pipelines.animation && animation_records >= 1,
        sized_kernel(ComputeKernel::Animation, animation_records),
    )
}

/// Produces the frame-global plan.
pub fn global_dispatch(
    settings: &RenderGraphSettings,
    pipelines: &GlobalPipelines,
    gh: &ExtractedGH,
    animation_records: u32,
) -> (ops: Vec<DispatchOp>)
    ensures
        ops@ == global_compute_plan(*settings, *pipelines, *gh, animation_records),
{
    let mut ops: Vec<DispatchOp> = Vec::new();
    if settings.clear && pipelines.clear {
        ops.push(DispatchOp::DispatchKernel {
            kernel: ComputeKernel::Clear,
            x: gh.texture_size,
            y: gh.texture_size,
            z: gh.texture_size,
        });
    }
    if settings.automata && pipelines.automata {
        ops.push(DispatchOp::DispatchKernel {
            kernel: ComputeKernel::Automata,
            x: gh.texture_size,
            y: gh.texture_size,
            z: gh.texture_size,
        });
    }
    if settings.animation && pipelines.animation && animation_records >= 1 {
        let d = dispatch_size(animation_records);
        ops.push(DispatchOp::DispatchKernel {
            kernel: ComputeKernel::Animation,
            x: d,
            y: d,
            z: d,
        });
    }
    proof {
        assert(ops@ =~= global_compute_plan(*settings, *pipelines, *gh, animation_records));
    }
    ops
}

/// The per-view physics node of the expanded frame graph: dispatch the
/// physics kernel over a non-empty buffer, then copy the device-side
/// physics buffer to the host-visible buffer for next frame's readback.
/// Nothing is issued while the stage is disabled or its pipeline absent.
pub open spec fn physics_node_plan(
    physics_enabled: bool,
    pipeline_ready: bool,
    record_count: u32,
    buffer_length: u64,
) -> Seq<DispatchOp> {
    if !physics_enabled || !pipeline_ready {
        Seq::empty()
    } else {
        kernel_if(record_count >= 1, sized_kernel(ComputeKernel::Physics, record_count)) + seq![
            DispatchOp::CopyPhysicsToHost { byte_length: (buffer_length * 4) as u64 },
        ]
    }
}

/// The expanded frame graph's physics node.
pub struct PhysicsNode;

impl PhysicsNode {
    /// Produces the physics stage's plan for this frame.
    pub fn run(
        &self,
        physics_enabled: bool,
        pipeline_ready: bool,
        record_count: u32,
        buffer_length: u64,
    ) -> (ops: Vec<DispatchOp>)
        requires
            buffer_length * 4 <= u64::MAX,
        ensures
            ops@ == physics_node_plan(physics_enabled, pipeline_ready, record_count, buffer_length),
    {
        let mut ops: Vec<DispatchOp> = Vec::new();
        if physics_enabled && pipeline_ready {
            if record_count >= 1 {
                let d = dispatch_size(record_count);
                ops.push(DispatchOp::DispatchKernel {
                    kernel: ComputeKernel::Physics,
                    x: d,
                    y: d,
                    z: d,
                });
            }
            ops.push(DispatchOp::CopyPhysicsToHost { byte_length: buffer_length * 4 });
        }
        proof {
            assert(ops@ =~= physics_node_plan(
                physics_enabled,
                pipeline_ready,
                record_count,
                buffer_length,
            ));
        }
        ops
    }
}

/// The little-endian byte encoding of one 32-bit word.
pub open spec fn le_bytes(w: u32) -> Seq<u8> {
    seq![
        (w % 256) as u8,
        ((w / 256) % 256) as u8,
        ((w / 65536) % 256) as u8,
        ((w / 16777216) % 256) as u8,
    ]
}

/// The compute uniform buffer's wire layout: simulation time then delta
/// time, each a little-endian 32-bit float given as its bit pattern. The
/// caller pads the result to the device's minimum uniform alignment.
pub fn uniform_buffer_bytes(time_bits: u32, delta_time_bits: u32) -> (r: Vec<u8>)
    ensures
        r@ == le_bytes(time_bits) + le_bytes(delta_time_bits),
{
    let mut r: Vec<u8> = Vec::new();
    r.push((time_bits % 256) as u8);
    r.push(((time_bits / 256) % 256) as u8);
    r.push(((time_bits / 65536) % 256) as u8);
    r.push(((time_bits / 16777216) % 256) as u8);
    r.push((delta_time_bits % 256) as u8);
    r.push(((delta_time_bits / 256) % 256) as u8);
    r.push(((delta_time_bits / 65536) % 256) as u8);
    r.push(((delta_time_bits / 16777216) % 256) as u8);
    proof {
        assert(r@ =~= le_bytes(time_bits) + le_bytes(delta_time_bits));
    }
    r
}

/// No plan ever dispatches a kernel with a zero workgroup count: an empty
/// buffer causes its kernel to be skipped, and whole-grid kernels run over
/// a non-empty grid extent.
pub proof fn lemma_plan_never_dispatches_zero(
    state: ComputeState,
    enable_compute: bool,
    pipelines: PipelineStatus,
    gh: ExtractedGH,
    physics_records: u32,
    animation_records: u32,
)
    requires
        gh.texture_size >= 1,
    ensures
        ({
            let plan = compute_node_plan(
                state,
                enable_compute,
                pipelines,
                gh,
                physics_records,
                animation_records,
            );
            forall|k: int|
                0 <= k < plan.len() ==> (#[trigger] plan[k] matches DispatchOp::DispatchKernel {
                    x,
                    y,
                    z,
                    ..
                } ==> x >= 1 && y >= 1 && z >= 1)
        }),
{
    if physics_records >= 1 {
        lemma_dispatch_size_positive(physics_records as int);
        lemma_dispatch_size_bounded(physics_records as int);
    }
    if animation_records >= 1 {
        lemma_dispatch_size_positive(animation_records as int);
        lemma_dispatch_size_bounded(animation_records as int);
    }
}

/// The cube-root ceiling of a record count that fits a `u32` fits a `u32`
/// itself.
pub proof fn lemma_dispatch_size_bounded(n: int)
    requires
        0 <= n <= u32::MAX,
    ensures
        dispatch_size_spec(n) <= 1626,
{
    lemma_dispatch_size_exists(n);
    let d = dispatch_size_spec(n);
    if d > 1626 {
        assert((d - 1) * (d - 1) * (d - 1) >= 1626 * 1626 * 1626) by (nonlinear_arith)
            requires
                d - 1 >= 1626,
        ;
    }
}

} // verus!
