use edge_ascii::structure_tensor::{CellStructureTensors, StructureTensor};

#[test]
fn products_are_added_up() {
    let mut t = StructureTensor::new(2);
    t.accumulate(3, -4);
    t.accumulate(-1020, 1020);
    assert_eq!(t.pixels, 2);
    assert_eq!(t.gx_squared, 9 + 1020 * 1020);
    assert_eq!(t.gxgy, -12 - 1020 * 1020);
    assert_eq!(t.gy_squared, 16 + 1020 * 1020);
}

#[test]
fn extreme_gradients() {
    let mut t = StructureTensor::new(1);
    t.accumulate(i16::MIN, i16::MAX);
    assert_eq!(t.gx_squared, 32768 * 32768);
    assert_eq!(t.gxgy, -32768 * 32767);
    assert_eq!(t.gy_squared, 32767 * 32767);
}

#[test]
fn quadrants_share_the_pixels_equally() {
    let t = CellStructureTensors::new(6, 4);
    assert_eq!((t.cell_w, t.cell_h), (6, 4));
    for q in [t.tl, t.tr, t.bl, t.br] {
        assert_eq!(q, StructureTensor::new(6));
    }
}

#[test]
fn each_pixel_counts_in_its_quadrant() {
    let mut t = CellStructureTensors::new(4, 4);
    t.accumulate(1, 1, 1, 0);
    t.accumulate(2, 1, 2, 0);
    t.accumulate(1, 2, 3, 0);
    t.accumulate(3, 3, 4, 0);
    assert_eq!(t.tl.gx_squared, 1);
    assert_eq!(t.tr.gx_squared, 4);
    assert_eq!(t.bl.gx_squared, 9);
    assert_eq!(t.br.gx_squared, 16);
}

#[test]
fn accumulating_a_cell_gives_each_quadrant_its_sums() {
    let gx = |x: u32, y: u32| (7 * x) as i16 - (3 * y) as i16;
    let gy = |x: u32, y: u32| (x * y) as i16 - 5;
    let (w, h) = (6, 8);
    let mut t = CellStructureTensors::new(w, h);
    for y in 0..h {
        for x in 0..w {
            t.accumulate(x, y, gx(x, y), gy(x, y));
        }
    }
    let sums = |x1: u32, y1: u32, x2: u32, y2: u32| {
        let mut q = StructureTensor::new((w / 2) * (h / 2));
        for y in y1..y2 {
            for x in x1..x2 {
                let (a, b) = (gx(x, y) as i64, gy(x, y) as i64);
                q.gx_squared += a * a;
                q.gxgy += a * b;
                q.gy_squared += b * b;
            }
        }
        q
    };
    assert_eq!(t.tl, sums(0, 0, 3, 4));
    assert_eq!(t.tr, sums(3, 0, 6, 4));
    assert_eq!(t.bl, sums(0, 4, 3, 8));
    assert_eq!(t.br, sums(3, 4, 6, 8));
}

#[test]
fn parts_of_a_cell() {
    let mut t = CellStructureTensors::new(2, 2);
    t.accumulate(0, 0, 1, 0);
    t.accumulate(1, 0, 2, 0);
    t.accumulate(0, 1, 3, 0);
    t.accumulate(1, 1, 4, 0);
    let sums = |part: &[StructureTensor]| part.iter().map(|q| q.gx_squared).collect::<Vec<_>>();
    assert_eq!(sums(&t.combined()), [1, 9, 4, 16]);
    assert_eq!(sums(&t.left()), [1, 9]);
    assert_eq!(sums(&t.right()), [4, 16]);
    assert_eq!(sums(&t.top()), [1, 4]);
    assert_eq!(sums(&t.bottom()), [9, 16]);
}
