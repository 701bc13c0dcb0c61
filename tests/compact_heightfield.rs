use recast::{
    BORDER_REGION, CompactCell, CompactHeightfield, CompactSpanData, Direction, NoRegions, NOT_CONNECTED,
    WALKABLE_AREA_ID,
};

const W: u8 = WALKABLE_AREA_ID;

// A `size` by `size` floor: one open span per cell from height 1 up to the
// cap, connected to each neighbour inside the grid.
fn flat_room(size: i32, areas: Vec<u8>) -> CompactHeightfield<NoRegions> {
    let mut cells = Vec::new();
    let mut spans = Vec::new();
    for z in 0..size {
        for x in 0..size {
            cells.push(CompactCell { index: (x + z * size) as u32, count: 1 });
            let offsets = [(-1, 0), (0, 1), (1, 0), (0, -1)];
            let mut con = 0u32;
            for (d, (dx, dz)) in offsets.iter().enumerate() {
                let (nx, nz) = (x + dx, z + dz);
                let code = if nx < 0 || nz < 0 || nx >= size || nz >= size { NOT_CONNECTED } else { 0 };
                con |= code << (6 * d);
            }
            spans.push(CompactSpanData { y: 1, h: 255, con });
        }
    }
    CompactHeightfield::<NoRegions>::from_parts(size, size, 3, 0, cells, spans, areas)
        .expect("tables are well formed")
}

#[test]
fn flat_room_spans_reach_the_cap() {
    let chf = flat_room(5, vec![W; 25]);
    assert_eq!(chf.grid_width(), 5);
    assert_eq!(chf.grid_height(), 5);
    assert_eq!(chf.walkable_height(), 3);
    assert_eq!(chf.walkable_climb(), 0);
    assert_eq!(chf.spans_len(), 25);

    let spans = chf.spans_iter();
    for range in chf.cells_iter() {
        let column = &spans[range];
        assert_eq!(column.len(), 1);
        let top = &column[column.len() - 1];
        assert_eq!((top.y_start_u16(), top.y_size_u32(), top.y_end_u32()), (1, 255, 256));
    }
}

#[test]
fn cells_name_their_span_runs() {
    let chf = flat_room(3, vec![W; 9]);
    assert_eq!(chf.cell(0), 0..1);
    assert_eq!(chf.cell(4), 4..5);
    assert_eq!(chf.cells_iter().len(), 9);
}

#[test]
fn connections_decode_each_direction() {
    let chf = flat_room(5, vec![W; 25]);
    let spans = chf.spans_iter();
    // Corner cell (0, 0): neighbours only towards +x and +z.
    let corner = &spans[0];
    assert_eq!(corner.connection(Direction::NegX), NOT_CONNECTED);
    assert_eq!(corner.connection(Direction::NegZ), NOT_CONNECTED);
    assert_eq!(corner.connection(Direction::PosX), 0);
    assert_eq!(corner.connection(Direction::PosZ), 0);
    // Centre cell: neighbours all round.
    let centre = &spans[12];
    for d in [Direction::NegX, Direction::PosZ, Direction::PosX, Direction::NegZ] {
        assert_eq!(centre.connection(d), 0);
    }
}

// All four sides unconnected.
const ALONE: u32 = 0xff_ffff;

// A 3 by 3 grid with four stacked spans per cell, all unconnected but the
// lowest span of the centre cell, whose sides carry `centre_con`.
fn stacked_grid(centre_con: u32) -> Result<CompactHeightfield<NoRegions>, ()> {
    let mut cells = Vec::new();
    let mut spans = Vec::new();
    for i in 0..9u32 {
        cells.push(CompactCell { index: 4 * i, count: 4 });
        for level in 0..4u16 {
            let con = if i == 4 && level == 0 { centre_con } else { ALONE };
            spans.push(CompactSpanData { y: 10 * level, h: 5, con });
        }
    }
    CompactHeightfield::<NoRegions>::from_parts(3, 3, 2, 1, cells, spans, vec![W; 36])
}

#[test]
fn connection_fields_are_six_bits_each() {
    let con = 1 | (2 << 6) | (3 << 12) | (63 << 18);
    let chf = stacked_grid(con).expect("codes name existing spans");
    let s = &chf.spans_iter()[16];
    assert_eq!(s.connection(Direction::NegX), 1);
    assert_eq!(s.connection(Direction::PosZ), 2);
    assert_eq!(s.connection(Direction::PosX), 3);
    assert_eq!(s.connection(Direction::NegZ), NOT_CONNECTED);
    assert_eq!(s.y_end_u32(), 5);
    assert_eq!(chf.spans_iter()[19].y_end_u32(), 35);
}

#[test]
fn connections_must_name_existing_spans() {
    // The neighbouring columns hold four spans: code 4 names none.
    assert!(stacked_grid(4 | (63 << 6) | (63 << 12) | (63 << 18)).is_err());
    assert!(stacked_grid(3 | (63 << 6) | (63 << 12) | (63 << 18)).is_ok());
    // A corner span cannot connect outwards.
    let cells = vec![CompactCell { index: 0, count: 1 }];
    let spans = vec![CompactSpanData { y: 1, h: 255, con: ALONE & !0x3f }];
    assert!(CompactHeightfield::<NoRegions>::from_parts(1, 1, 3, 0, cells, spans, vec![W]).is_err());
}

#[test]
fn span_areas_follow_the_tables() {
    let eroded = vec![
        0, 0, 0, 0, 0, //
        0, W, W, W, 0, //
        0, W, W, W, 0, //
        0, W, W, W, 0, //
        0, 0, 0, 0, 0, //
    ];
    let chf = flat_room(5, eroded.clone());
    assert_eq!(chf.span_areas(), &eroded[..]);
}

#[test]
fn regions_are_attached_once() {
    let regions: Vec<u16> = vec![
        0, 0, 0, 0, 0, //
        0, 1, 1, 1, 0, //
        0, 1, 1, 1, 0, //
        0, 1, 1, 1, 0, //
        0, 0, 0, 0, 0, //
    ];
    let chf = flat_room(5, vec![W; 25]);
    let with_regions = chf.into_regions(0, 2, 2, regions.clone()).expect("one region per span");
    assert_eq!(with_regions.border_size(), 0);
    assert_eq!(with_regions.max_region_id(), 2);
    assert_eq!(with_regions.max_distance(), 2);
    let ids: Vec<u16> = with_regions.spans_iter().iter().map(|s| s.region_id()).collect();
    assert_eq!(ids, regions);
    assert_eq!(with_regions.grid_width(), 5);
    assert_eq!(with_regions.span_areas(), &vec![W; 25][..]);
}

#[test]
fn regions_must_cover_every_span() {
    let chf = flat_room(2, vec![W; 4]);
    assert!(chf.into_regions(0, 1, 2, vec![1, 1, 1]).is_err());
}

#[test]
fn compact_tables_must_agree() {
    let span = CompactSpanData { y: 1, h: 255, con: ALONE };
    let one = CompactCell { index: 0, count: 1 };
    // Cell count does not match the grid.
    assert!(CompactHeightfield::<NoRegions>::from_parts(2, 1, 3, 0, vec![one], vec![span], vec![W]).is_err());
    // Cell runs past the spans.
    let long = CompactCell { index: 0, count: 2 };
    assert!(CompactHeightfield::<NoRegions>::from_parts(1, 1, 3, 0, vec![long], vec![span], vec![W]).is_err());
    // One area per span.
    assert!(CompactHeightfield::<NoRegions>::from_parts(1, 1, 3, 0, vec![one], vec![span], vec![]).is_err());
    // Connection codes hold 24 bits.
    let wide = CompactSpanData { y: 1, h: 255, con: 1 << 24 | ALONE };
    assert!(CompactHeightfield::<NoRegions>::from_parts(1, 1, 3, 0, vec![one], vec![wide], vec![W]).is_err());
    // Empty grid.
    assert!(CompactHeightfield::<NoRegions>::from_parts(0, 0, 3, 0, vec![], vec![], vec![]).is_err());
    // An empty cell is fine.
    let empty = CompactCell { index: 1, count: 0 };
    assert!(CompactHeightfield::<NoRegions>::from_parts(2, 1, 3, 0, vec![one, empty], vec![span], vec![W]).is_ok());
}

#[test]
fn cells_must_split_spans_in_order() {
    let span = CompactSpanData { y: 1, h: 255, con: ALONE };
    let cell = |index, count| CompactCell { index, count };
    let build = |cells: Vec<CompactCell>| {
        CompactHeightfield::<NoRegions>::from_parts(2, 1, 3, 0, cells, vec![span; 3], vec![W; 3])
    };
    assert!(build(vec![cell(0, 1), cell(1, 2)]).is_ok());
    // Overlapping runs.
    assert!(build(vec![cell(0, 2), cell(1, 2)]).is_err());
    // A gap.
    assert!(build(vec![cell(0, 1), cell(2, 1)]).is_err());
    // Spans left over.
    assert!(build(vec![cell(0, 1), cell(1, 1)]).is_err());
    // Not starting at the first span.
    assert!(build(vec![cell(1, 1), cell(2, 1)]).is_err());
}

#[test]
fn empty_columns_may_keep_index_zero() {
    // Recast leaves a column without spans at index 0, count 0, wherever it
    // stands in the grid.
    let span = CompactSpanData { y: 1, h: 255, con: ALONE };
    let cells = vec![
        CompactCell { index: 0, count: 1 },
        CompactCell { index: 0, count: 0 },
        CompactCell { index: 1, count: 1 },
        CompactCell { index: 0, count: 0 },
    ];
    let chf = CompactHeightfield::<NoRegions>::from_parts(4, 1, 3, 0, cells, vec![span; 2], vec![W; 2])
        .expect("empty columns hold no span");
    assert_eq!(chf.spans_len(), 2);
    assert_eq!(chf.cell(1), 0..0);
    assert_eq!(chf.cell(2), 1..2);
    assert_eq!(chf.cell(3), 0..0);
    let filled: usize = chf.cells_iter().iter().map(|r| r.len()).sum();
    assert_eq!(filled, 2);
}

#[test]
fn empty_columns_stay_within_the_spans() {
    let span = CompactSpanData { y: 1, h: 255, con: ALONE };
    let cells = vec![CompactCell { index: 0, count: 1 }, CompactCell { index: 2, count: 0 }];
    assert!(CompactHeightfield::<NoRegions>::from_parts(2, 1, 3, 0, cells, vec![span], vec![W]).is_err());
    let cells = vec![CompactCell { index: 0, count: 1 }, CompactCell { index: 1, count: 0 }];
    assert!(CompactHeightfield::<NoRegions>::from_parts(2, 1, 3, 0, cells, vec![span], vec![W]).is_ok());
}

#[test]
fn region_ids_stay_within_the_region_count() {
    let build = || flat_room(2, vec![W; 4]);
    // Numbered regions run from 1 to the count.
    let chf = build().into_regions(0, 1, 2, vec![0, 1, 2, 2]).expect("ids within the count");
    assert_eq!(chf.spans_iter()[3].region_id(), 2);
    assert!(build().into_regions(0, 1, 2, vec![0, 1, 3, 2]).is_err());
    // Border regions carry their own flag and are not counted.
    let border = BORDER_REGION | 3;
    let chf = build().into_regions(1, 1, 1, vec![border, 1, 1, border]).expect("border ids are free");
    assert_eq!(chf.spans_iter()[0].region_id(), 0x8003);
}
