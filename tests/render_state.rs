use meshlet_renderer::builder::MeshBuilder;
use meshlet_renderer::frame::{FrameError, FramePool, SlotState, NUM_FRAMES};
use meshlet_renderer::indirection::{level_address_table, mesh_address_table, LevelAddresses};
use meshlet_renderer::lod::{lod_target_index_count, plan_draw, select_level, task_group_count, DrawCall};
use meshlet_renderer::mesh::Vertex;

#[test]
fn level_selection_caps_at_the_coarsest() {
    let scaled = (50.0f64 * 0.08f64).floor() as u32;
    assert_eq!(select_level(scaled, 4), 4);
    let scaled = (30.0f64 * 0.08f64).floor() as u32;
    assert_eq!(select_level(scaled, 4), 2);
    assert_eq!(select_level(0, 4), 0);
    assert_eq!(select_level(900, 4), 4);
    assert_eq!(select_level(7, 0), 0);
}

#[test]
fn task_groups_round_up() {
    assert_eq!(task_group_count(0, 32), 0);
    assert_eq!(task_group_count(1, 32), 1);
    assert_eq!(task_group_count(32, 32), 1);
    assert_eq!(task_group_count(33, 32), 2);
    assert_eq!(task_group_count(100, 1), 100);
    assert_eq!(task_group_count(u32::MAX, 1), u32::MAX);
}

#[test]
fn draw_plan_clamps_the_level() {
    let counts = vec![40, 20, 9];
    assert_eq!(plan_draw(&counts, 1, 8), DrawCall { level: 1, task_groups: 3 });
    assert_eq!(plan_draw(&counts, 7, 8), DrawCall { level: 2, task_groups: 2 });
    assert_eq!(plan_draw(&vec![5], 3, 32), DrawCall { level: 0, task_groups: 1 });
}

#[test]
fn lod_targets_halve_per_level() {
    assert_eq!(lod_target_index_count(3000, 0), 3000);
    assert_eq!(lod_target_index_count(3000, 1), 1500);
    assert_eq!(lod_target_index_count(3000, 4), 187);
    assert_eq!(lod_target_index_count(3000, 64), 0);
    assert_eq!(lod_target_index_count(usize::MAX, 63), 1);
}

#[test]
fn address_tables_point_at_each_level() {
    let levels = vec![
        LevelAddresses { vertices: 100, meshlets: 200, meshlet_data: 300 },
        LevelAddresses { vertices: 101, meshlets: 201, meshlet_data: 301 },
        LevelAddresses { vertices: 102, meshlets: 202, meshlet_data: 302 },
    ];
    assert_eq!(level_address_table(&levels), vec![100, 200, 300, 101, 201, 301, 102, 202, 302]);
    assert_eq!(mesh_address_table(0x1000, &vec![2, 1]), vec![0x1000, 2, 0x1000 + 48, 1]);
    assert_eq!(mesh_address_table(0x1000, &vec![]), Vec::<u64>::new());
}

#[test]
fn frame_slots_throttle_submissions() {
    let mut pool = FramePool::new(NUM_FRAMES);
    assert_eq!(pool.len(), 2);
    // Frame 0 in slot 0, frame 1 in slot 1.
    assert_eq!(pool.begin_frame(), Ok(0));
    assert_eq!(pool.submit(), Ok(0));
    assert!(!pool.needs_wait());
    assert_eq!(pool.begin_frame(), Ok(1));
    assert_eq!(pool.submit(), Ok(1));
    // Both slots are outstanding: the third frame must wait for slot 0.
    assert_eq!(pool.current_slot(), 0);
    assert!(pool.needs_wait());
    assert_eq!(pool.begin_frame(), Err(FrameError::FenceNotSignaled));
    let outstanding = (0..pool.len()).filter(|s| pool.state(*s) == SlotState::Submitted).count();
    assert_eq!(outstanding, 2);
    assert_eq!(pool.fence_signaled(0), Ok(()));
    assert_eq!(pool.begin_frame(), Ok(0));
    assert_eq!(pool.begin_frame(), Err(FrameError::AlreadyRecording));
    assert_eq!(pool.submit(), Ok(0));
    assert_eq!(pool.submit(), Err(FrameError::NotRecording));
    assert_eq!(pool.fence_signaled(0), Ok(()));
    assert_eq!(pool.fence_signaled(0), Err(FrameError::NotSubmitted));
    assert_eq!(pool.fence_signaled(5), Err(FrameError::NotSubmitted));
}

#[test]
fn builder_adds_quads_as_two_triangles() {
    let v = |x: f32| Vertex::new([x.to_bits(), 0, 0], [0, 0], [0, 0, 0]);
    let mut b = MeshBuilder::new();
    b.add_quad(&v(0.0), &v(1.0), &v(2.0), &v(3.0));
    b.add_quad(&v(4.0), &v(5.0), &v(6.0), &v(7.0));
    assert_eq!(b.vertex_count(), 8);
    let (vertices, indices) = b.build();
    assert_eq!(vertices[5], v(5.0));
    assert_eq!(indices, vec![0, 1, 3, 3, 1, 2, 4, 5, 7, 7, 5, 6]);
}
