use tileshot::grid::Grid;
use tileshot::geom::Point2;
use tileshot::material::{Material, Palette};
use tileshot::SCALE;

#[test]
fn structural_edits_preserve_cells() {
    let mut g = Grid::new(4, 3);
    g.insert(2, 1, Material::Wall);
    g.insert(0, 2, Material::Dirt);

    g.widen();
    assert_eq!(g.width(), 5);
    assert_eq!(g.height(), 3);
    assert_eq!(g.get(2, 1), Some(Material::Wall));
    assert_eq!(g.get(0, 2), Some(Material::Dirt));
    assert_eq!(g.get(4, 0), Some(Material::Grass));

    g.heighten();
    assert_eq!(g.height(), 4);
    assert_eq!(g.get(2, 1), Some(Material::Wall));
    assert_eq!(g.get(0, 3), Some(Material::Grass));

    g.thin();
    assert_eq!(g.width(), 4);
    assert_eq!(g.get(2, 1), Some(Material::Wall));

    g.shorten();
    assert_eq!(g.height(), 3);
    assert_eq!(g.get(0, 2), Some(Material::Dirt));
}

#[test]
fn thin_on_single_column_is_a_no_op() {
    let mut g = Grid::new(1, 2);
    g.thin();
    assert_eq!(g.width(), 1);
    assert_eq!(g.height(), 2);
}

#[test]
fn shorten_on_single_row_is_a_no_op() {
    let mut g = Grid::new(3, 1);
    g.shorten();
    assert_eq!(g.height(), 1);
}

#[test]
fn out_of_bounds_cells_are_solid() {
    let g = Grid::new(2, 2);
    assert!(!g.is_solid(1, 1));
    assert!(g.is_solid(2, 0));
    assert!(g.is_solid(0, 2));
}

#[test]
fn snap_maps_world_units_to_cells() {
    assert_eq!(Grid::snap_coords(0, 0), (0, 0));
    assert_eq!(Grid::snap_coords(31 * SCALE, 32 * SCALE), (0, 1));
    assert_eq!(Grid::snap(Point2::new(170 * SCALE, 95 * SCALE)), (5, 2));
    // Negative coordinates saturate to zero.
    assert_eq!(Grid::snap_coords(-5 * SCALE, -1), (0, 0));
}

#[test]
fn from_raw_rebuilds_and_rejects_ragged_data() {
    let ids: Vec<u8> = vec![0, 1, 7, 200];
    let g = Grid::from_raw(2, &ids).unwrap();
    assert_eq!(g.width(), 2);
    assert_eq!(g.height(), 2);
    assert_eq!(g.get(1, 0), Some(Material::Wall));
    // Unknown identifiers coerce to the fail-closed Missing material.
    assert_eq!(g.get(1, 1), Some(Material::Missing));
    assert!(g.is_solid(1, 1));

    let ragged: Vec<u8> = vec![0, 1, 2];
    assert!(Grid::from_raw(2, &ragged).is_none());
}

#[test]
fn raw_ids_round_trip() {
    let mut g = Grid::new(3, 2);
    g.insert(1, 1, Material::Concrete);
    let ids = g.raw_ids();
    let g2 = Grid::from_raw(3, &ids).unwrap();
    assert_eq!(g2.get(1, 1), Some(Material::Concrete));
    assert_eq!(g2.get(0, 0), Some(Material::Grass));
}

#[test]
fn unknown_material_id_maps_to_missing() {
    assert_eq!(Material::from_id(0), Material::Grass);
    assert_eq!(Material::from_id(1), Material::Wall);
    assert_eq!(Material::from_id(99), Material::Missing);
    assert_eq!(Material::from_id(255), Material::Missing);
    assert!(Material::Missing.solid());
    assert!(!Material::Sand.solid());
}

#[test]
fn palette_lookup_and_fail_closed_default() {
    let p = Palette::new(vec![(1, SCALE), (3, SCALE / 4), (5, -7), (6, 2 * SCALE)]);
    assert_eq!(p.robustness(1), SCALE);
    assert_eq!(p.robustness(3), SCALE / 4);
    // Values are clamped into [0, SCALE].
    assert_eq!(p.robustness(5), 0);
    assert_eq!(p.robustness(6), SCALE);
    // Identifiers without an entry get the conservative maximum.
    assert_eq!(p.robustness(42), SCALE);
    let empty = Palette::missing_only();
    assert_eq!(empty.robustness(0), SCALE);
}
