use vstd::prelude::*;
use crate::batch::{Batch, lemma_count_le_sum};
use crate::command::{DrawCommand, COMMAND_SIZE};

verus! {

/// How draw records are issued, fixed once at startup.
#[derive(Clone, Copy, Debug, PartialEq, Eq, Structural)]
pub enum Capability {
    /// One aggregated multi-draw call covers the whole record buffer.
    SingleCallSupported,
    /// One indirect draw call per record.
    FallbackOnly,
}

/// Resolves the dispatch mode: the aggregated call is used only when it was
/// asked for and the device offers it.
pub fn negotiate(requested: bool, supported: bool) -> (r: Capability)
    ensures
        r == (if requested && supported {
            Capability::SingleCallSupported
        } else {
            Capability::FallbackOnly
        }),
{
    if requested && supported {
        Capability::SingleCallSupported
    } else {
        Capability::FallbackOnly
    }
}

/// One command of a frame's render pass.
#[derive(Clone, Copy, Debug, PartialEq, Eq, Structural)]
pub enum RenderStep {
    SetPipeline,
    SetBindGroup,
    SetVertexBuffer,
    SetInstanceBuffer,
    SetIndexBuffer,
    /// Draws `count` records starting at byte `offset` of the record buffer.
    MultiDrawIndirect { offset: u64, count: u32 },
    /// Draws the one record at byte `offset` of the record buffer.
    DrawIndirect { offset: u64 },
}

/// The bindings every frame makes before drawing, in this order.
pub open spec fn binding_steps() -> Seq<RenderStep> {
    seq![
        RenderStep::SetPipeline,
        RenderStep::SetBindGroup,
        RenderStep::SetVertexBuffer,
        RenderStep::SetInstanceBuffer,
        RenderStep::SetIndexBuffer,
    ]
}

/// The draw calls that issue `count` records in the given mode.
pub open spec fn draw_plan(mode: Capability, count: nat) -> Seq<RenderStep> {
    match mode {
        Capability::SingleCallSupported => seq![RenderStep::MultiDrawIndirect { offset: 0, count: count as u32 }],
        Capability::FallbackOnly => Seq::new(
            count,
            |i: int| RenderStep::DrawIndirect { offset: (i * COMMAND_SIZE) as u64 },
        ),
    }
}

/// The indices of the records that one step draws, in order.
pub open spec fn step_records(s: RenderStep) -> Seq<int> {
    match s {
        RenderStep::MultiDrawIndirect { offset, count } => Seq::new(
            count as nat,
            |i: int| offset as int / COMMAND_SIZE as int + i,
        ),
        RenderStep::DrawIndirect { offset } => seq![offset as int / COMMAND_SIZE as int],
        _ => Seq::empty(),
    }
}

/// The indices of the records that a sequence of steps draws, in order.
pub open spec fn addressed(steps: Seq<RenderStep>) -> Seq<int>
    decreases steps.len(),
{
    if steps.len() == 0 {
        Seq::empty()
    } else {
        addressed(steps.drop_last()) + step_records(steps.last())
    }
}

/// The records that a sequence of steps draws from `commands`, in order.
pub open spec fn drawn_records(steps: Seq<RenderStep>, commands: Seq<DrawCommand>) -> Seq<DrawCommand> {
    addressed(steps).map_values(|i: int| commands[i])
}

proof fn lemma_fallback_addresses(count: nat)
    requires
        count <= u32::MAX,
    ensures
        addressed(draw_plan(Capability::FallbackOnly, count)) == Seq::new(count, |i: int| i),
    decreases count,
{
    if count > 0 {
        let plan = draw_plan(Capability::FallbackOnly, count);
        lemma_fallback_addresses((count - 1) as nat);
        assert(plan.drop_last() =~= draw_plan(Capability::FallbackOnly, (count - 1) as nat));
        assert(addressed(plan) =~= Seq::new(count, |i: int| i));
    }
}

/// Both modes draw the same records in the same order, all of them from the
/// first: the aggregated mode in one call, the fallback mode in one call per
/// record.
pub proof fn lemma_dispatch_equivalence(commands: Seq<DrawCommand>)
    requires
        commands.len() <= u32::MAX,
    ensures
        drawn_records(draw_plan(Capability::SingleCallSupported, commands.len()), commands) == commands,
        drawn_records(draw_plan(Capability::FallbackOnly, commands.len()), commands) == commands,
        draw_plan(Capability::SingleCallSupported, commands.len()).len() == 1,
        draw_plan(Capability::FallbackOnly, commands.len()).len() == commands.len(),
{
    let n = commands.len();
    let single = draw_plan(Capability::SingleCallSupported, n);
    assert(single.drop_last() =~= Seq::<RenderStep>::empty());
    assert(addressed(single.drop_last()) =~= Seq::<int>::empty());
    assert(step_records(single.last()) =~= Seq::new(n, |i: int| i));
    assert(addressed(single) =~= Seq::new(n, |i: int| i));
    assert(drawn_records(single, commands) =~= commands);
    lemma_fallback_addresses(n);
    assert(drawn_records(draw_plan(Capability::FallbackOnly, n), commands) =~= commands);
}

/// Issues a batch's draw records in the mode chosen at startup.
pub struct DrawDispatcher {
    mode: Capability,
}

impl DrawDispatcher {
    /// A dispatcher fixed to the negotiated mode.
    pub fn new(capability: Capability) -> (r: Self)
        ensures
            r.mode() == capability,
    {
        DrawDispatcher { mode: capability }
    }

    /// The mode this dispatcher issues records in.
    pub closed spec fn mode(&self) -> Capability {
        self.mode
    }

    /// The mode this dispatcher issues records in.
    pub fn capability(&self) -> (r: Capability)
        ensures
            r == self.mode(),
    {
        self.mode
    }

    /// The draw calls for `count` records. In the fallback mode call `i`
    /// addresses the record at byte `i * COMMAND_SIZE`.
    pub fn draw_steps(&self, count: u32) -> (r: Vec<RenderStep>)
        ensures
            r@ == draw_plan(self.mode(), count as nat),
            self.mode() == Capability::FallbackOnly ==> r@.len() == count && forall|i: int|
                #![trigger r@[i]]
                0 <= i < count ==> r@[i] == (RenderStep::DrawIndirect {
                    offset: (i * COMMAND_SIZE) as u64,
                }),
    {
        let mut r: Vec<RenderStep> = Vec::new();
        match self.mode {
            Capability::SingleCallSupported => {
                r.push(RenderStep::MultiDrawIndirect { offset: 0, count });
                assert(r@ =~= draw_plan(self.mode(), count as nat));
            },
            Capability::FallbackOnly => {
                let mut i: u32 = 0;
                while i < count
                    invariant
                        i <= count,
                        self.mode() == Capability::FallbackOnly,
                        r@ =~= draw_plan(Capability::FallbackOnly, i as nat),
                    decreases count - i,
                {
                    r.push(RenderStep::DrawIndirect { offset: i as u64 * COMMAND_SIZE });
                    i = i + 1;
                    assert(r@ =~= draw_plan(Capability::FallbackOnly, i as nat));
                }
            },
        }
        r
    }

    /// The render pass of one frame over `batch`: the bindings in their fixed
    /// order, then the draw calls for all of its records.
    pub fn frame_steps<V, I>(&self, batch: &Batch<V, I>) -> (r: Vec<RenderStep>)
        requires
            batch.wf(),
        ensures
            batch@.commands.len() <= u32::MAX,
            r@ == binding_steps() + draw_plan(self.mode(), batch@.commands.len()),
    {
        proof {
            lemma_count_le_sum(batch@.vertex_counts);
        }
        let mut r: Vec<RenderStep> = Vec::new();
        r.push(RenderStep::SetPipeline);
        r.push(RenderStep::SetBindGroup);
        r.push(RenderStep::SetVertexBuffer);
        r.push(RenderStep::SetInstanceBuffer);
        r.push(RenderStep::SetIndexBuffer);
        let mut draws = self.draw_steps(batch.len() as u32);
        r.append(&mut draws);
        assert(r@ =~= binding_steps() + draw_plan(self.mode(), batch@.commands.len()));
        r
    }
}

} // verus!
