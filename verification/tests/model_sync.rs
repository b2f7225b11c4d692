//! The store's buffer synchronisation and the draw path.

use render_core::allocator::VkAllocator;
use render_core::commands::{CommandRecorder, RecordedCommand};
use render_core::model::Model;

fn quad_like() -> Model<u32, u32> {
    // A small mesh: four "vertices" and six indices, as in a quad.
    Model::new(vec![100, 200, 300, 400], vec![0, 2, 1, 1, 2, 3])
}

#[test]
fn vertex_buffer_mirrors_the_vertex_data() {
    let mut al = VkAllocator::new(4096);
    let mut m = quad_like();
    m.update_vertex_buffer(&mut al).unwrap();
    let b = m.vertex_buffer().as_ref().unwrap();
    assert_eq!(
        &b.mapped_contents()[..],
        &[100, 0, 0, 0, 200, 0, 0, 0, 44, 1, 0, 0, 144, 1, 0, 0]
    );
}

#[test]
fn index_buffer_mirrors_the_index_data() {
    let mut al = VkAllocator::new(4096);
    let mut m = quad_like();
    m.update_index_buffer(&mut al).unwrap();
    let b = m.index_buffer().as_ref().unwrap();
    assert_eq!(
        &b.mapped_contents()[..],
        &[0, 0, 0, 0, 2, 0, 0, 0, 1, 0, 0, 0, 1, 0, 0, 0, 2, 0, 0, 0, 3, 0, 0, 0]
    );
}

#[test]
fn instance_buffer_holds_only_the_visible_prefix() {
    let mut al = VkAllocator::new(4096);
    let mut m = quad_like();
    m.insert(0xAAAA);
    let b = m.insert(0xBBBB);
    m.insert(0xCCCC);
    m.make_visible(b).unwrap();
    m.update_instance_buffer(&mut al).unwrap();
    let buf = m.instance_buffer().as_ref().unwrap();
    // Only handle b is visible: exactly its record's four bytes.
    assert_eq!(&buf.mapped_contents()[..], &[0xBB, 0xBB, 0, 0]);
}

#[test]
fn instance_buffer_grows_with_more_visible_instances() {
    let mut al = VkAllocator::new(4096);
    let mut m = quad_like();
    m.insert_visibly(1);
    m.update_instance_buffer(&mut al).unwrap();
    assert_eq!(m.instance_buffer().as_ref().unwrap().size_in_bytes(), 4);
    m.insert_visibly(2);
    m.insert_visibly(3);
    m.update_instance_buffer(&mut al).unwrap();
    assert_eq!(m.instance_buffer().as_ref().unwrap().size_in_bytes(), 12);
    // Shrinking the visible set keeps the capacity (no shrink).
    m.make_invisible(1).unwrap();
    m.make_invisible(2).unwrap();
    m.update_instance_buffer(&mut al).unwrap();
    assert_eq!(m.instance_buffer().as_ref().unwrap().size_in_bytes(), 12);
}

#[test]
fn draw_records_nothing_without_visible_instances() {
    let mut al = VkAllocator::new(4096);
    let mut m = quad_like();
    m.insert(5);
    m.update_vertex_buffer(&mut al).unwrap();
    m.update_index_buffer(&mut al).unwrap();
    m.update_instance_buffer(&mut al).unwrap();
    let mut rec = CommandRecorder::new();
    m.draw(&mut rec);
    assert!(rec.recorded().is_empty());
}

#[test]
fn draw_scenario_records_instance_count_one() {
    // Insert 3 instances, make only one visible: the draw call carries
    // instance count 1 and all six indices.
    let mut al = VkAllocator::new(4096);
    let mut m = quad_like();
    m.insert(10);
    let b = m.insert(11);
    m.insert(12);
    m.make_visible(b).unwrap();
    m.update_vertex_buffer(&mut al).unwrap();
    m.update_index_buffer(&mut al).unwrap();
    m.update_instance_buffer(&mut al).unwrap();
    let mut rec = CommandRecorder::new();
    m.draw(&mut rec);
    let cmds = rec.recorded();
    assert_eq!(cmds.len(), 4);
    assert!(matches!(
        cmds[0],
        RecordedCommand::BindVertexBuffer { binding: 0, .. }
    ));
    assert!(matches!(
        cmds[1],
        RecordedCommand::BindVertexBuffer { binding: 1, .. }
    ));
    assert!(matches!(cmds[2], RecordedCommand::BindIndexBuffer { .. }));
    assert_eq!(
        cmds[3],
        RecordedCommand::DrawIndexed { index_count: 6, instance_count: 1 }
    );
}

#[test]
fn store_cleanup_releases_every_buffer() {
    let mut al = VkAllocator::new(4096);
    let mut m = quad_like();
    m.insert_visibly(1);
    m.update_vertex_buffer(&mut al).unwrap();
    m.update_index_buffer(&mut al).unwrap();
    m.update_instance_buffer(&mut al).unwrap();
    assert_eq!(al.live_allocations(), 3);
    m.cleanup(&mut al);
    assert_eq!(al.live_allocations(), 0);
    assert_eq!(al.used_bytes(), 0);
    assert_eq!(al.cleanup(), 0);
}

#[test]
fn replacing_the_mesh_grows_the_vertex_buffer() {
    let mut al = VkAllocator::new(4096);
    let mut m: Model<u32, u32> = Model::new(vec![1, 2], vec![0, 1]);
    m.update_vertex_buffer(&mut al).unwrap();
    assert_eq!(m.vertex_buffer().as_ref().unwrap().size_in_bytes(), 8);
    m.set_mesh(vec![1, 2, 3, 4], vec![0, 1, 2, 0, 2, 3]);
    m.update_vertex_buffer(&mut al).unwrap();
    let b = m.vertex_buffer().as_ref().unwrap();
    assert_eq!(b.size_in_bytes(), 16);
    assert_eq!(
        &b.mapped_contents()[..],
        &[1, 0, 0, 0, 2, 0, 0, 0, 3, 0, 0, 0, 4, 0, 0, 0]
    );
}
