use multidraw::batch::{build_command, Batch, Offsets, PackError};
use multidraw::{encode_commands, DrawCommand};

type Vertex = [i32; 3];

fn triangle() -> (Vec<Vertex>, Vec<u16>) {
    (vec![[-1, 0, 0], [1, 0, 0], [0, 1, 0]], vec![0, 1, 2])
}

fn quad() -> (Vec<Vertex>, Vec<u16>) {
    (
        vec![[0, 0, 0], [1, 0, 0], [1, 1, 0], [0, 1, 0]],
        vec![0, 1, 2, 0, 2, 3],
    )
}

fn cmd(vertex_count: u32, base_index: u32, vertex_offset: u32, base_instance: u32) -> DrawCommand {
    DrawCommand { vertex_count, instance_count: 1, base_index, vertex_offset, base_instance }
}

#[test]
fn three_triangles_pack_in_order() {
    let mut batch: Batch<Vertex, u32> = Batch::new();
    for i in 0..3u32 {
        let (v, t) = triangle();
        assert!(batch.append(i, v, t).is_ok());
    }
    assert_eq!(
        batch.commands(),
        &vec![cmd(3, 0, 0, 0), cmd(3, 3, 3, 1), cmd(3, 6, 6, 2)]
    );
    assert_eq!(batch.vertices().len(), 9);
    assert_eq!(batch.indices().len(), 9);
    assert_eq!(batch.instances(), &vec![0, 1, 2]);
    assert_eq!(batch.len(), 3);
}

#[test]
fn append_returns_offsets_of_the_new_object() {
    let mut batch: Batch<Vertex, u32> = Batch::new();
    let (v, t) = quad();
    assert_eq!(
        batch.append(7, v, t),
        Ok(Offsets { vertex_offset: 0, base_index: 0, base_instance: 0 })
    );
    let (v, t) = triangle();
    assert_eq!(
        batch.append(8, v, t),
        Ok(Offsets { vertex_offset: 4, base_index: 6, base_instance: 1 })
    );
}

#[test]
fn offsets_are_prefix_sums_of_mixed_meshes() {
    let mut batch: Batch<Vertex, u32> = Batch::new();
    for i in 0..5u32 {
        let (v, t) = if i % 2 == 0 { quad() } else { triangle() };
        batch.append(i, v, t).unwrap();
    }
    let cs = batch.commands();
    let mut vertex_sum = 0u32;
    let mut index_sum = 0u32;
    let index_counts = [6u32, 3, 6, 3, 6];
    for (i, c) in cs.iter().enumerate() {
        assert_eq!(c.vertex_offset, vertex_sum);
        assert_eq!(c.base_index, index_sum);
        vertex_sum += c.vertex_count;
        index_sum += index_counts[i];
    }
    for w in cs.windows(2) {
        assert!(w[0].vertex_offset <= w[1].vertex_offset);
        assert!(w[0].base_index <= w[1].base_index);
    }
    assert_eq!(cs[4], cmd(4, 18, 14, 4));
}

#[test]
fn vertex_counts_add_up_to_packed_vertices() {
    let mut batch: Batch<Vertex, u32> = Batch::new();
    for i in 0..6u32 {
        let (v, t) = if i % 3 == 0 { quad() } else { triangle() };
        batch.append(i, v, t).unwrap();
    }
    let total: u32 = batch.commands().iter().map(|c| c.vertex_count).sum();
    assert_eq!(total as usize, batch.vertices().len());
    assert_eq!(total, 20);
    assert_eq!(batch.instances().len(), 6);
}

#[test]
fn each_record_draws_its_own_instance() {
    let mut batch: Batch<Vertex, u32> = Batch::new();
    for i in 0..4u32 {
        let (v, t) = quad();
        batch.append(100 + i, v, t).unwrap();
    }
    for (i, c) in batch.commands().iter().enumerate() {
        assert_eq!(c.base_instance, i as u32);
        assert_eq!(c.instance_count, 1);
    }
}

#[test]
fn empty_batch_has_nothing() {
    let batch: Batch<Vertex, u32> = Batch::new();
    assert_eq!(batch.len(), 0);
    assert!(batch.commands().is_empty());
    assert!(batch.vertices().is_empty());
    assert!(batch.indices().is_empty());
}

#[test]
fn indices_stay_local_to_their_mesh() {
    let mut batch: Batch<Vertex, u32> = Batch::new();
    let (v, t) = triangle();
    batch.append(0, v, t).unwrap();
    let (v, t) = triangle();
    batch.append(1, v, t).unwrap();
    assert_eq!(batch.indices(), &vec![0, 1, 2, 0, 1, 2]);
}

#[test]
fn packing_twice_gives_independent_batches() {
    let mut first: Batch<Vertex, u32> = Batch::new();
    let mut second: Batch<Vertex, u32> = Batch::new();
    for batch in [&mut first, &mut second] {
        for i in 0..3u32 {
            let (v, t) = if i == 1 { quad() } else { triangle() };
            batch.append(i, v, t).unwrap();
        }
    }
    assert_eq!(first.commands(), second.commands());
    assert_eq!(second.commands()[0], cmd(3, 0, 0, 0));
    let mut all = first.vertices().clone();
    all.extend(second.vertices().iter().cloned());
    assert_eq!(all.len(), 2 * first.vertices().len());
    assert_eq!(first.indices().len() + second.indices().len(), 24);
}

#[test]
fn empty_mesh_is_refused() {
    let mut batch: Batch<Vertex, u32> = Batch::new();
    assert_eq!(batch.append(0, vec![], vec![]), Err(PackError::EmptyMesh));
    assert_eq!(batch.len(), 0);
}

#[test]
fn incomplete_triangles_are_refused() {
    let mut batch: Batch<Vertex, u32> = Batch::new();
    let (v, _) = quad();
    assert_eq!(batch.append(0, v, vec![0, 1, 2, 3]), Err(PackError::IncompleteTriangles));
    assert!(batch.vertices().is_empty());
}

#[test]
fn index_outside_the_mesh_is_refused() {
    let mut batch: Batch<Vertex, u32> = Batch::new();
    let (v, t) = triangle();
    batch.append(0, v, t).unwrap();
    let (v, _) = triangle();
    assert_eq!(batch.append(1, v, vec![0, 1, 3]), Err(PackError::IndexOutOfRange));
    assert_eq!(batch.len(), 1);
    assert_eq!(batch.indices().len(), 3);
}

#[test]
fn totals_beyond_u32_are_refused() {
    let mut batch: Batch<(), u32> = Batch::new();
    let big = vec![(); (u32::MAX as usize) - 1];
    assert!(batch.append(0, big, vec![]).is_ok());
    assert_eq!(batch.append(1, vec![(), ()], vec![0, 1, 1]), Err(PackError::TooLarge));
    assert!(batch.append(2, vec![()], vec![0, 0, 0]).is_ok());
    assert_eq!(batch.commands()[1], cmd(1, 0, u32::MAX - 1, 1));
}

#[test]
fn build_command_copies_offsets() {
    let o = Offsets { vertex_offset: 10, base_index: 20, base_instance: 3 };
    assert_eq!(build_command(o, 4), cmd(4, 20, 10, 3));
}

#[test]
fn records_encode_in_field_order() {
    let words = encode_commands(&vec![cmd(3, 0, 0, 0), cmd(4, 3, 3, 1)]);
    assert_eq!(words, vec![3, 1, 0, 0, 0, 4, 1, 3, 3, 1]);
    assert!(encode_commands(&vec![]).is_empty());
}
