use vstd::prelude::*;
use crate::command::DrawCommand;

verus! {

/// Sum of a sequence of counts.
pub open spec fn sum_of(s: Seq<nat>) -> nat
    decreases s.len(),
{
    if s.len() == 0 {
        0
    } else {
        sum_of(s.drop_last()) + s.last()
    }
}

/// Sum of the first `i` counts: where the slice of element `i` begins.
pub open spec fn prefix_sum(s: Seq<nat>, i: int) -> nat {
    sum_of(s.take(i))
}

/// The record of object `i` in a batch whose objects contributed
/// `vertex_counts[j]` vertices and `index_counts[j]` indices each.
pub open spec fn command_at(vertex_counts: Seq<nat>, index_counts: Seq<nat>, i: int) -> DrawCommand {
    DrawCommand {
        vertex_count: vertex_counts[i] as u32,
        instance_count: 1,
        base_index: prefix_sum(index_counts, i) as u32,
        vertex_offset: prefix_sum(vertex_counts, i) as u32,
        base_instance: i as u32,
    }
}

/// The records of all objects of a batch, in packing order.
pub open spec fn packed_commands(vertex_counts: Seq<nat>, index_counts: Seq<nat>) -> Seq<DrawCommand> {
    Seq::new(vertex_counts.len(), |i: int| command_at(vertex_counts, index_counts, i))
}

/// Why a mesh was not packed.
#[derive(Clone, Copy, Debug, PartialEq, Eq, Structural)]
pub enum PackError {
    /// The mesh has no vertices.
    EmptyMesh,
    /// The index count is not a multiple of three.
    IncompleteTriangles,
    /// An index does not address a vertex of the mesh's own vertex list.
    IndexOutOfRange,
    /// A running total would no longer fit the 32-bit fields of a draw record.
    TooLarge,
}

/// The offsets at which one object's data was placed.
#[derive(Clone, Copy, Debug, PartialEq, Eq, Structural)]
pub struct Offsets {
    pub vertex_offset: u32,
    pub base_index: u32,
    pub base_instance: u32,
}

/// Builds the draw record of one object from where it was packed and how many
/// vertices it has; every record draws exactly one instance.
pub fn build_command(offsets: Offsets, vertex_count: u32) -> (r: DrawCommand)
    ensures
        r == (DrawCommand {
            vertex_count,
            instance_count: 1,
            base_index: offsets.base_index,
            vertex_offset: offsets.vertex_offset,
            base_instance: offsets.base_instance,
        }),
{
    DrawCommand {
        vertex_count,
        instance_count: 1,
        base_index: offsets.base_index,
        vertex_offset: offsets.vertex_offset,
        base_instance: offsets.base_instance,
    }
}

/// What a batch holds: the four packed sequences and, per object, how many
/// vertices and indices it contributed.
pub struct BatchView<V, I> {
    pub vertices: Seq<V>,
    pub indices: Seq<u16>,
    pub instances: Seq<I>,
    pub commands: Seq<DrawCommand>,
    pub vertex_counts: Seq<nat>,
    pub index_counts: Seq<nat>,
}

/// Every index of object `i` addresses a vertex of that object's own slice.
pub open spec fn object_indices_local<V, I>(b: BatchView<V, I>, i: int) -> bool {
    forall|k: int|
        #![trigger b.indices[k]]
        prefix_sum(b.index_counts, i) <= k < prefix_sum(b.index_counts, i) + b.index_counts[i]
            ==> (b.indices[k] as nat) < b.vertex_counts[i]
}

/// The invariants of a packed batch.
pub open spec fn batch_wf<V, I>(b: BatchView<V, I>) -> bool {
    &&& b.index_counts.len() == b.vertex_counts.len()
    &&& b.instances.len() == b.vertex_counts.len()
    &&& b.commands == packed_commands(b.vertex_counts, b.index_counts)
    &&& b.vertices.len() == sum_of(b.vertex_counts)
    &&& b.indices.len() == sum_of(b.index_counts)
    &&& sum_of(b.vertex_counts) <= u32::MAX
    &&& sum_of(b.index_counts) <= u32::MAX
    &&& forall|i: int|
        #![trigger b.vertex_counts[i]]
        0 <= i < b.vertex_counts.len() ==> b.vertex_counts[i] > 0 && b.index_counts[i] % 3 == 0
    &&& forall|i: int|
        #![trigger b.index_counts[i]]
        0 <= i < b.vertex_counts.len() ==> object_indices_local(b, i)
}

/// The error, if any, that packing a mesh of `vertex_count` vertices and the
/// given indices into `b` gives.
pub open spec fn pack_error<V, I>(b: BatchView<V, I>, vertex_count: nat, indices: Seq<u16>) -> Option<PackError> {
    if vertex_count == 0 {
        Some(PackError::EmptyMesh)
    } else if indices.len() % 3 != 0 {
        Some(PackError::IncompleteTriangles)
    } else if exists|k: int| 0 <= k < indices.len() && indices[k] as nat >= vertex_count {
        Some(PackError::IndexOutOfRange)
    } else if b.vertices.len() + vertex_count > u32::MAX || b.indices.len() + indices.len() > u32::MAX {
        Some(PackError::TooLarge)
    } else {
        None
    }
}

/// The batch after a mesh was packed into `b`.
pub open spec fn appended<V, I>(b: BatchView<V, I>, instance: I, vertices: Seq<V>, indices: Seq<u16>) -> BatchView<V, I> {
    BatchView {
        vertices: b.vertices + vertices,
        indices: b.indices + indices,
        instances: b.instances.push(instance),
        commands: b.commands.push(
            DrawCommand {
                vertex_count: vertices.len() as u32,
                instance_count: 1,
                base_index: b.indices.len() as u32,
                vertex_offset: b.vertices.len() as u32,
                base_instance: b.instances.len() as u32,
            },
        ),
        vertex_counts: b.vertex_counts.push(vertices.len()),
        index_counts: b.index_counts.push(indices.len()),
    }
}

/// Vertices, indices and per-object instance records of many meshes packed
/// into shared sequences, with one draw record per object.
pub struct Batch<V, I> {
    vertices: Vec<V>,
    indices: Vec<u16>,
    instances: Vec<I>,
    commands: Vec<DrawCommand>,
    vertex_counts: Ghost<Seq<nat>>,
    index_counts: Ghost<Seq<nat>>,
}

impl<V, I> View for Batch<V, I> {
    type V = BatchView<V, I>;

    closed spec fn view(&self) -> BatchView<V, I> {
        BatchView {
            vertices: self.vertices@,
            indices: self.indices@,
            instances: self.instances@,
            commands: self.commands@,
            vertex_counts: self.vertex_counts@,
            index_counts: self.index_counts@,
        }
    }
}

/// A sum over a prefix is at most the sum over the whole sequence.
pub proof fn lemma_prefix_sum_le(s: Seq<nat>, i: int)
    requires
        0 <= i <= s.len(),
    ensures
        prefix_sum(s, i) <= sum_of(s),
    decreases s.len(),
{
    if i == s.len() {
        assert(s.take(i) =~= s);
    } else {
        lemma_prefix_sum_le(s.drop_last(), i);
        assert(s.drop_last().take(i) =~= s.take(i));
    }
}

/// With every count at least one, the sum is at least the number of counts.
pub proof fn lemma_count_le_sum(s: Seq<nat>)
    requires
        forall|i: int| #![trigger s[i]] 0 <= i < s.len() ==> s[i] > 0,
    ensures
        s.len() <= sum_of(s),
    decreases s.len(),
{
    if s.len() > 0 {
        assert forall|i: int| #![trigger s.drop_last()[i]] 0 <= i < s.len() - 1 implies s.drop_last()[i] > 0 by {
            assert(s[i] > 0);
        }
        lemma_count_le_sum(s.drop_last());
        assert(s[s.len() - 1] > 0);
    }
}

/// The prefix sum grows by the element it passes over.
pub proof fn lemma_prefix_sum_step(s: Seq<nat>, i: int)
    requires
        0 <= i < s.len(),
    ensures
        prefix_sum(s, i + 1) == prefix_sum(s, i) + s[i],
{
    assert(s.take(i + 1).drop_last() =~= s.take(i));
}

/// Appending an element leaves the earlier prefix sums unchanged.
pub proof fn lemma_prefix_sum_push(s: Seq<nat>, x: nat, i: int)
    requires
        0 <= i <= s.len(),
    ensures
        prefix_sum(s.push(x), i) == prefix_sum(s, i),
{
    assert(s.push(x).take(i) =~= s.take(i));
}


/// Packing a mesh that `pack_error` accepts keeps the invariants.
pub proof fn lemma_appended_wf<V, I>(b: BatchView<V, I>, instance: I, vertices: Seq<V>, indices: Seq<u16>)
    requires
        batch_wf(b),
        pack_error(b, vertices.len(), indices) is None,
    ensures
        batch_wf(appended(b, instance, vertices, indices)),
{
    let b2 = appended(b, instance, vertices, indices);
    let n = b.vertex_counts.len() as int;
    assert(b2.vertex_counts.drop_last() =~= b.vertex_counts);
    assert(b2.index_counts.drop_last() =~= b.index_counts);
    assert(b2.vertex_counts.take(n) =~= b.vertex_counts);
    assert(b2.index_counts.take(n) =~= b.index_counts);
    assert forall|i: int| 0 <= i < n implies command_at(b2.vertex_counts, b2.index_counts, i)
        == command_at(b.vertex_counts, b.index_counts, i) by {
        lemma_prefix_sum_push(b.vertex_counts, vertices.len(), i);
        lemma_prefix_sum_push(b.index_counts, indices.len(), i);
    }
    assert(b2.commands =~= packed_commands(b2.vertex_counts, b2.index_counts));
    assert forall|i: int|
        #![trigger b2.vertex_counts[i]]
        0 <= i < b2.vertex_counts.len() implies b2.vertex_counts[i] > 0 && b2.index_counts[i] % 3 == 0 by {
        if i < n {
            assert(b.vertex_counts[i] > 0);
        }
    }
    assert forall|i: int|
        #![trigger b2.index_counts[i]]
        0 <= i < b2.vertex_counts.len() implies object_indices_local(b2, i) by {
        if i < n {
            assert(b.index_counts[i] >= 0);
            assert(object_indices_local(b, i));
            lemma_prefix_sum_push(b.index_counts, indices.len(), i);
            lemma_prefix_sum_step(b.index_counts, i);
            lemma_prefix_sum_le(b.index_counts, i + 1);
            assert forall|k: int|
                #![trigger b2.indices[k]]
                prefix_sum(b2.index_counts, i) <= k < prefix_sum(b2.index_counts, i)
                    + b2.index_counts[i] implies (b2.indices[k] as nat) < b2.vertex_counts[i] by {
                assert(b2.indices[k] == b.indices[k]);
            }
        } else {
            assert forall|k: int|
                #![trigger b2.indices[k]]
                prefix_sum(b2.index_counts, i) <= k < prefix_sum(b2.index_counts, i)
                    + b2.index_counts[i] implies (b2.indices[k] as nat) < b2.vertex_counts[i] by {
                let j = k - b.indices.len();
                assert(b2.indices[k] == indices[j]);
                assert(!(indices[j] as nat >= vertices.len()));
            }
        }
    }
}

/// Each count is at most the sum of all of them.
pub proof fn lemma_count_le_total(s: Seq<nat>, i: int)
    requires
        0 <= i < s.len(),
    ensures
        prefix_sum(s, i) + s[i] <= sum_of(s),
{
    lemma_prefix_sum_step(s, i);
    lemma_prefix_sum_le(s, i + 1);
}

/// Prefix sums never decrease.
pub proof fn lemma_prefix_sum_monotone(s: Seq<nat>, i: int, j: int)
    requires
        0 <= i <= j <= s.len(),
    ensures
        prefix_sum(s, i) <= prefix_sum(s, j),
{
    lemma_prefix_sum_le(s.take(j), i);
    assert(s.take(j).take(i) =~= s.take(i));
}

/// The vertex counts that the records of `cs` state.
pub open spec fn recorded_vertex_counts(cs: Seq<DrawCommand>) -> Seq<nat> {
    cs.map_values(|c: DrawCommand| c.vertex_count as nat)
}

/// In a packed batch, each record's vertex offset and base index are the
/// numbers of vertices and indices of all objects packed before it, so both
/// never decrease from one record to the next.
pub proof fn lemma_offsets_are_prefix_sums<V, I>(b: BatchView<V, I>)
    requires
        batch_wf(b),
    ensures
        forall|i: int|
            #![trigger b.commands[i]]
            0 <= i < b.commands.len() ==> b.commands[i].vertex_offset == prefix_sum(b.vertex_counts, i)
                && b.commands[i].base_index == prefix_sum(b.index_counts, i)
                && b.commands[i].vertex_count == b.vertex_counts[i],
        forall|i: int, j: int|
            0 <= i <= j < b.commands.len() ==> b.commands[i].vertex_offset <= b.commands[j].vertex_offset
                && b.commands[i].base_index <= b.commands[j].base_index,
{
    assert forall|i: int|
        #![trigger b.commands[i]]
        0 <= i < b.commands.len() implies b.commands[i].vertex_offset == prefix_sum(b.vertex_counts, i)
            && b.commands[i].base_index == prefix_sum(b.index_counts, i)
            && b.commands[i].vertex_count == b.vertex_counts[i] by {
        lemma_count_le_total(b.vertex_counts, i);
        lemma_count_le_total(b.index_counts, i);
    }
    assert forall|i: int, j: int|
        0 <= i <= j < b.commands.len() implies b.commands[i].vertex_offset <= b.commands[j].vertex_offset
            && b.commands[i].base_index <= b.commands[j].base_index by {
        assert(b.commands[i].vertex_offset == prefix_sum(b.vertex_counts, i));
        assert(b.commands[j].vertex_offset == prefix_sum(b.vertex_counts, j));
        assert(b.commands[i].base_index == prefix_sum(b.index_counts, i));
        assert(b.commands[j].base_index == prefix_sum(b.index_counts, j));
        lemma_prefix_sum_monotone(b.vertex_counts, i, j);
        lemma_prefix_sum_monotone(b.index_counts, i, j);
    }
}

/// In a packed batch the records' vertex counts add up to the number of
/// packed vertices, and there is one instance record per draw record.
pub proof fn lemma_counts_conserved<V, I>(b: BatchView<V, I>)
    requires
        batch_wf(b),
    ensures
        sum_of(recorded_vertex_counts(b.commands)) == b.vertices.len(),
        b.instances.len() == b.commands.len(),
{
    lemma_offsets_are_prefix_sums(b);
    assert(recorded_vertex_counts(b.commands) =~= b.vertex_counts);
}

/// In a packed batch, record `i` draws one instance, starting at instance `i`.
pub proof fn lemma_instance_identity<V, I>(b: BatchView<V, I>)
    requires
        batch_wf(b),
    ensures
        forall|i: int|
            #![trigger b.commands[i]]
            0 <= i < b.commands.len() ==> b.commands[i].base_instance == i
                && b.commands[i].instance_count == 1,
{
    lemma_count_le_sum(b.vertex_counts);
}

/// Two batches packed from meshes of the same shapes are independent: their
/// records are equal, each starting from offset zero rather than continuing
/// the other, and laid end to end their sequences are twice as long as one.
pub proof fn lemma_independent_batches<V, I>(a: BatchView<V, I>, b: BatchView<V, I>)
    requires
        batch_wf(a),
        batch_wf(b),
        a.vertex_counts == b.vertex_counts,
        a.index_counts == b.index_counts,
    ensures
        a.commands == b.commands,
        (a.vertices + b.vertices).len() == 2 * a.vertices.len(),
        (a.indices + b.indices).len() == 2 * a.indices.len(),
        (a.instances + b.instances).len() == 2 * a.instances.len(),
        b.commands.len() > 0 ==> b.commands[0].vertex_offset == 0 && b.commands[0].base_index == 0
            && b.commands[0].base_instance == 0,
{
    if b.commands.len() > 0 {
        assert(b.vertex_counts.take(0) =~= Seq::<nat>::empty());
        assert(b.index_counts.take(0) =~= Seq::<nat>::empty());
        assert(b.commands[0] == command_at(b.vertex_counts, b.index_counts, 0));
    }
}

impl<V, I> Batch<V, I> {
    /// The invariants hold.
    pub open spec fn wf(&self) -> bool {
        batch_wf(self@)
    }

    /// An empty batch.
    pub fn new() -> (r: Self)
        ensures
            r.wf(),
            r@.vertices.len() == 0,
            r@.indices.len() == 0,
            r@.instances.len() == 0,
            r@.commands.len() == 0,
            r@.vertex_counts.len() == 0,
            r@.index_counts.len() == 0,
    {
        let r = Batch {
            vertices: Vec::new(),
            indices: Vec::new(),
            instances: Vec::new(),
            commands: Vec::new(),
            vertex_counts: Ghost(Seq::empty()),
            index_counts: Ghost(Seq::empty()),
        };
        assert(r@.commands =~= packed_commands(r@.vertex_counts, r@.index_counts));
        r
    }
    /// Packs one mesh: its vertices, indices and instance record go to the end
    /// of the respective sequences, and a draw record addressing them is added.
    /// Returns where the mesh was placed, or the error `pack_error` gives, in
    /// which case nothing changes.
    pub fn append(&mut self, instance: I, vertices: Vec<V>, indices: Vec<u16>) -> (r: Result<Offsets, PackError>)
        requires
            old(self).wf(),
        ensures
            final(self).wf(),
            r is Err <==> pack_error(old(self)@, vertices@.len(), indices@) is Some,
            match r {
                Ok(o) => {
                    &&& final(self)@ == appended(old(self)@, instance, vertices@, indices@)
                    &&& o.vertex_offset == old(self)@.vertices.len()
                    &&& o.base_index == old(self)@.indices.len()
                    &&& o.base_instance == old(self)@.instances.len()
                },
                Err(e) => {
                    &&& pack_error(old(self)@, vertices@.len(), indices@) == Some(e)
                    &&& final(self)@ == old(self)@
                },
            },
    {
        let vertex_count = vertices.len();
        if vertex_count == 0 {
            return Err(PackError::EmptyMesh);
        }
        if indices.len() % 3 != 0 {
            return Err(PackError::IncompleteTriangles);
        }
        let mut k: usize = 0;
        while k < indices.len()
            invariant
                k <= indices@.len(),
                vertex_count == vertices@.len(),
                vertex_count > 0,
                indices@.len() % 3 == 0,
                self@ == old(self)@,
                self.wf(),
                forall|j: int| 0 <= j < k ==> (indices@[j] as nat) < vertex_count,
            decreases indices@.len() - k,
        {
            if indices[k] as usize >= vertex_count {
                assert(indices@[k as int] as nat >= vertices@.len());
                return Err(PackError::IndexOutOfRange);
            }
            k = k + 1;
        }
        let vertex_total = self.vertices.len();
        let index_total = self.indices.len();
        if vertex_count > u32::MAX as usize - vertex_total || indices.len() > u32::MAX as usize
            - index_total {
            return Err(PackError::TooLarge);
        }
        proof {
            lemma_count_le_sum(self.vertex_counts@);
        }
        let offsets = Offsets {
            vertex_offset: vertex_total as u32,
            base_index: index_total as u32,
            base_instance: self.instances.len() as u32,
        };
        let command = build_command(offsets, vertex_count as u32);
        let ghost old_view = self@;
        let ghost added_vertices = vertices@;
        let ghost added_indices = indices@;
        let mut vertices = vertices;
        let mut indices = indices;
        self.vertices.append(&mut vertices);
        self.indices.append(&mut indices);
        self.instances.push(instance);
        self.commands.push(command);
        self.vertex_counts = Ghost(self.vertex_counts@.push(added_vertices.len()));
        self.index_counts = Ghost(self.index_counts@.push(added_indices.len()));
        proof {
            lemma_appended_wf(old_view, instance, added_vertices, added_indices);
            assert(self@ == appended(old_view, instance, added_vertices, added_indices));
        }
        Ok(offsets)
    }
    /// The packed vertices of all objects, in packing order.
    pub fn vertices(&self) -> (r: &Vec<V>)
        ensures
            r@ == self@.vertices,
    {
        &self.vertices
    }

    /// The packed indices of all objects, each local to its object's vertices.
    pub fn indices(&self) -> (r: &Vec<u16>)
        ensures
            r@ == self@.indices,
    {
        &self.indices
    }

    /// One instance record per object, in packing order.
    pub fn instances(&self) -> (r: &Vec<I>)
        ensures
            r@ == self@.instances,
    {
        &self.instances
    }

    /// One draw record per object, in packing order.
    pub fn commands(&self) -> (r: &Vec<DrawCommand>)
        ensures
            r@ == self@.commands,
    {
        &self.commands
    }

    /// The number of packed objects.
    pub fn len(&self) -> (r: usize)
        requires
            self.wf(),
        ensures
            r == self@.commands.len(),
            r == self@.instances.len(),
    {
        self.commands.len()
    }
}

} // verus!
