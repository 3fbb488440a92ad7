use crucible::pipeline::{drain_raster, raster_order, PixelBuffer};
use crucible::ppm::ppm_bytes;

fn color_of(i: u32, j: u32) -> (u8, u8, u8) {
    ((i * 10) as u8, (j * 20) as u8, (i + j) as u8)
}

#[test]
fn raster_order_is_row_by_row() {
    let keys = raster_order(3, 2);
    assert_eq!(keys, vec![(0, 0), (1, 0), (2, 0), (0, 1), (1, 1), (2, 1)]);
    assert!(raster_order(0, 4).is_empty());
    assert!(raster_order(4, 0).is_empty());
}

#[test]
fn drain_reads_every_pixel_in_raster_order() {
    let buffer = PixelBuffer::new();
    for j in 0..2u32 {
        for i in 0..3u32 {
            buffer.insert((i, j), color_of(i, j));
        }
    }
    buffer.insert((7, 7), (1, 1, 1));
    let mut buffer = buffer;
    let pixels = drain_raster(&mut buffer, 3, 2).unwrap();
    assert_eq!(
        pixels,
        vec![color_of(0, 0), color_of(1, 0), color_of(2, 0), color_of(0, 1), color_of(1, 1), color_of(2, 1)]
    );
    assert_eq!(buffer.len(), 1);
    assert!(buffer.contains_key(&(7, 7)));
}

#[test]
fn drain_refuses_an_incomplete_buffer() {
    let mut buffer = PixelBuffer::new();
    buffer.insert((0, 0), (1, 2, 3));
    buffer.insert((1, 0), (4, 5, 6));
    assert!(drain_raster(&mut buffer, 2, 2).is_none());
    assert_eq!(buffer.len(), 2);
    assert_eq!(*buffer.get(&(1, 0)).unwrap(), (4, 5, 6));
}

#[test]
fn completion_order_does_not_change_the_image() {
    let width = 5u32;
    let height = 3u32;
    let keys = raster_order(width, height);

    let mut one_worker = PixelBuffer::new();
    for &(i, j) in keys.iter() {
        one_worker.insert((i, j), color_of(i, j));
    }

    let mut interleaved = PixelBuffer::new();
    for start in [2usize, 0, 1] {
        for &(i, j) in keys.iter().rev().skip(start).step_by(3) {
            interleaved.insert((i, j), color_of(i, j));
        }
    }

    let a = drain_raster(&mut one_worker, width, height).unwrap();
    let b = drain_raster(&mut interleaved, width, height).unwrap();
    assert_eq!(a, b);
    assert_eq!(ppm_bytes(width, height, &a), ppm_bytes(width, height, &b));
}
