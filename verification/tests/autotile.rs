use logicsider::autotile::{
    load_rules_from_image, rules_from_decoded, rules_from_image, Connection, ConnectionFilter, Rgba, RgbaImage, Rule, RuleImageError,
    Tile, TileGrid, TilePos, TilesetDef,
};
use logicsider::geometry::Vec2;

fn v(x: i32, y: i32) -> Vec2 {
    Vec2 { x, y }
}

#[test]
fn filters_match_connections() {
    assert!(ConnectionFilter::Anything.matches(Connection::Empty));
    assert!(ConnectionFilter::Empty.matches(Connection::Empty));
    assert!(!ConnectionFilter::Empty.matches(Connection::Same));
    assert!(ConnectionFilter::NotEmpty.matches(Connection::Different));
    assert!(!ConnectionFilter::NotEmpty.matches(Connection::Empty));
    assert!(ConnectionFilter::Same.matches(Connection::Same));
    assert!(!ConnectionFilter::Same.matches(Connection::Different));
    assert!(ConnectionFilter::Different.matches(Connection::Empty));
    assert!(ConnectionFilter::Different.matches(Connection::Different));
    assert!(!ConnectionFilter::Different.matches(Connection::Same));
}

fn grid(cells: &[(i32, i32, &str)]) -> TileGrid {
    let mut g = TileGrid::new();
    for &(x, y, kind) in cells {
        g.insert(v(x, y), kind.to_string());
    }
    g
}

#[test]
fn the_grid_tells_connections() {
    let g = grid(&[(0, 0, "block"), (1, 0, "block"), (0, 1, "cloud")]);
    assert_eq!(g.get_at(v(1, 0)), Some("block"));
    assert_eq!(g.get_at(v(2, 0)), None);
    assert_eq!(g.connection(v(0, 0), "block", v(1, 0)), Connection::Same);
    assert_eq!(g.connection(v(0, 0), "block", v(0, 1)), Connection::Different);
    assert_eq!(g.connection(v(0, 0), "block", v(-1, 0)), Connection::Empty);
    assert_eq!(g.non_empty_tiles(), vec![v(0, 0), v(1, 0), v(0, 1)]);
}

#[test]
fn inserting_at_a_taken_cell_replaces_the_tile() {
    let g = grid(&[(0, 0, "block"), (0, 0, "cloud")]);
    assert_eq!(g.non_empty_tiles(), vec![v(0, 0)]);
    assert_eq!(g.get_at(v(0, 0)), Some("cloud"));
}

fn edge_tile() -> Tile {
    Tile {
        rules: vec![
            Rule {
                connections: vec![(v(1, 0), ConnectionFilter::Same), (v(-1, 0), ConnectionFilter::Empty)],
                tileset_pos: TilePos { x: 1, y: 0 },
            },
            Rule {
                connections: vec![(v(-1, 0), ConnectionFilter::Same), (v(1, 0), ConnectionFilter::Empty)],
                tileset_pos: TilePos { x: 2, y: 0 },
            },
        ],
        default: Some(TilePos { x: 0, y: 0 }),
    }
}

#[test]
fn matching_rules_pick_the_tile() {
    let g = grid(&[(0, 0, "block"), (1, 0, "block")]);
    let tile = edge_tile();
    assert_eq!(tile.matched_rules(&g, v(0, 0), "block"), vec![TilePos { x: 1, y: 0 }]);
    assert_eq!(tile.tileset_pos(&g, v(0, 0), "block"), Some(TilePos { x: 1, y: 0 }));
    assert_eq!(tile.tileset_pos(&g, v(1, 0), "block"), Some(TilePos { x: 2, y: 0 }));
    let lone = grid(&[(5, 5, "block")]);
    assert_eq!(tile.matched_rules(&lone, v(5, 5), "block"), vec![]);
    assert_eq!(tile.tileset_pos(&lone, v(5, 5), "block"), Some(TilePos { x: 0, y: 0 }));
    assert_eq!(tile.with_default(None), Some(TilePos { x: 0, y: 0 }));
    assert_eq!(tile.with_default(Some(TilePos { x: 7, y: 7 })), Some(TilePos { x: 7, y: 7 }));
}

#[test]
fn a_random_pick_is_one_of_the_matching_rules() {
    let g = grid(&[(0, 0, "block")]);
    let tile = Tile {
        rules: vec![
            Rule { connections: vec![], tileset_pos: TilePos { x: 3, y: 1 } },
            Rule { connections: vec![(v(0, 1), ConnectionFilter::Anything)], tileset_pos: TilePos { x: 4, y: 1 } },
        ],
        default: None,
    };
    for _ in 0..20 {
        let p = tile.tileset_pos(&g, v(0, 0), "block").unwrap();
        assert!(p == TilePos { x: 3, y: 1 } || p == TilePos { x: 4, y: 1 });
    }
}

#[test]
fn a_tileset_with_defaults_draws_every_cell() {
    let def = TilesetDef {
        tile_size: TilePos { x: 16, y: 16 },
        tiles: vec![("block".to_string(), edge_tile()), ("cloud".to_string(), Tile::at(5, 6))],
    };
    let g = grid(&[(0, 0, "block"), (1, 0, "block"), (0, 3, "cloud")]);
    let mesh = def.generate_mesh(&g);
    let cells: Vec<Vec2> = mesh.iter().map(|t| t.pos).collect();
    assert_eq!(cells, g.non_empty_tiles());
    assert_eq!(mesh[0].tileset_pos, TilePos { x: 1, y: 0 });
    assert_eq!(mesh[1].tileset_pos, TilePos { x: 2, y: 0 });
    assert_eq!(mesh[2].tileset_pos, TilePos { x: 5, y: 6 });
}

#[test]
fn a_tile_without_match_or_default_is_not_drawn() {
    let def = TilesetDef {
        tile_size: TilePos { x: 16, y: 16 },
        tiles: vec![(
            "block".to_string(),
            Tile {
                rules: vec![Rule {
                    connections: vec![(v(1, 0), ConnectionFilter::Same)],
                    tileset_pos: TilePos { x: 1, y: 1 },
                }],
                default: None,
            },
        )],
    };
    let g = grid(&[(0, 0, "block"), (1, 0, "block")]);
    let mesh = def.generate_mesh(&g);
    assert_eq!(mesh.len(), 1);
    assert_eq!(mesh[0].pos, v(0, 0));
    assert!(def.tile_named("cloud").is_none());
}

const WHITE: Rgba = Rgba { r: 255, g: 255, b: 255, a: 255 };
const BLACK: Rgba = Rgba { r: 0, g: 0, b: 0, a: 255 };
const RED: Rgba = Rgba { r: 255, g: 0, b: 0, a: 255 };
const CLEAR: Rgba = Rgba { r: 0, g: 0, b: 0, a: 0 };

fn color_rules() -> Vec<(Rgba, Option<ConnectionFilter>)> {
    vec![(WHITE, Some(ConnectionFilter::Empty)), (BLACK, None), (RED, Some(ConnectionFilter::Same))]
}

#[test]
fn test_color_rules_parse() {
    let rules = color_rules();
    assert_eq!(ConnectionFilter::from_color(&rules, WHITE), Some(ConnectionFilter::Empty));
    assert_eq!(ConnectionFilter::from_color(&rules, BLACK), None);
}

/// A 6 by 3 image of two 3 by 3 tiles: the left one asks for an empty cell
/// to the left and the same kind above; the right one is transparent.
fn rule_image() -> RgbaImage {
    let mut pixels = vec![CLEAR; 18];
    for y in 0..3 {
        for x in 0..3 {
            pixels[y * 6 + x] = BLACK;
        }
    }
    pixels[1 * 6 + 0] = WHITE;
    pixels[0 * 6 + 1] = RED;
    RgbaImage { width: 6, height: 3, pixels }
}

#[test]
fn a_rule_image_gives_one_rule_per_coloured_tile() {
    let rules = rules_from_image(&rule_image(), TilePos { x: 3, y: 3 }, &color_rules());
    assert_eq!(rules.len(), 1);
    assert_eq!(rules[0].tileset_pos, TilePos { x: 0, y: 0 });
    assert_eq!(rules[0].connections, vec![(v(-1, 0), ConnectionFilter::Empty), (v(0, 1), ConnectionFilter::Same)]);
}

#[test]
fn bytes_that_are_no_image_give_an_error() {
    let r = load_rules_from_image(&vec![1, 2, 3, 4], TilePos { x: 3, y: 3 }, &color_rules());
    assert!(matches!(r, Err(RuleImageError::NotAnImage)));
}

#[test]
fn a_decoded_image_is_checked_before_reading() {
    let r = rules_from_decoded(Some(rule_image()), TilePos { x: 4, y: 3 }, &color_rules());
    assert!(matches!(r, Err(RuleImageError::TileSizeMismatch)));
    let r = rules_from_decoded(Some(rule_image()), TilePos { x: 3, y: 3 }, &vec![(BLACK, None)]);
    assert!(matches!(r, Err(RuleImageError::UnknownColor)));
    let r = rules_from_decoded(Some(rule_image()), TilePos { x: 3, y: 3 }, &color_rules());
    assert_eq!(r.unwrap().len(), 1);
    assert!(matches!(rules_from_decoded(None, TilePos { x: 3, y: 3 }, &color_rules()), Err(RuleImageError::NotAnImage)));
}

/// The rule image encoded as a PNG file.
fn rule_image_png() -> Vec<u8> {
    let img = rule_image();
    let mut raw = Vec::new();
    for p in &img.pixels {
        raw.extend([p.r, p.g, p.b, p.a]);
    }
    let buffer = image::RgbaImage::from_raw(img.width as u32, img.height as u32, raw).unwrap();
    let mut bytes = std::io::Cursor::new(Vec::new());
    image::DynamicImage::ImageRgba8(buffer).write_to(&mut bytes, image::ImageOutputFormat::Png).unwrap();
    bytes.into_inner()
}

#[test]
fn a_png_rule_image_is_decoded_and_read() {
    let bytes = rule_image_png();
    let decoded = logicsider::autotile::decode_image(&bytes).unwrap();
    assert_eq!(decoded.width, 6);
    assert_eq!(decoded.height, 3);
    assert_eq!(decoded.pixels, rule_image().pixels);
    let rules = load_rules_from_image(&bytes, TilePos { x: 3, y: 3 }, &color_rules()).unwrap();
    assert_eq!(rules.len(), 1);
    assert_eq!(rules[0].tileset_pos, TilePos { x: 0, y: 0 });
    assert_eq!(rules[0].connections, vec![(v(-1, 0), ConnectionFilter::Empty), (v(0, 1), ConnectionFilter::Same)]);
}

#[test]
fn raw_bytes_become_pixels() {
    let pixels = logicsider::autotile::pixels_from_raw(&vec![1, 2, 3, 4, 5, 6, 7, 8]);
    assert_eq!(pixels, vec![Rgba { r: 1, g: 2, b: 3, a: 4 }, Rgba { r: 5, g: 6, b: 7, a: 8 }]);
    let img = rule_image();
    assert_eq!(img.get_pixel(1, 0), RED);
    assert_eq!(img.get_pixel(0, 1), WHITE);
    assert!(logicsider::autotile::samples_are_known(&img, TilePos { x: 3, y: 3 }, &color_rules()));
    assert!(!logicsider::autotile::samples_are_known(&img, TilePos { x: 3, y: 3 }, &vec![(WHITE, None)]));
}

/// Two blocks side by side: every cell of the map gets a tile of the mesh.
#[test]
fn test() {
    let def = TilesetDef {
        tile_size: TilePos { x: 16, y: 16 },
        tiles: vec![("block".to_string(), edge_tile())],
    };
    let map = grid(&[(0, 0, "block"), (1, 0, "block")]);
    let mesh = def.generate_mesh(&map);
    let mut mesh_cells: Vec<(i32, i32)> = mesh.iter().map(|t| (t.pos.x, t.pos.y)).collect();
    let mut map_cells: Vec<(i32, i32)> = map.non_empty_tiles().iter().map(|p| (p.x, p.y)).collect();
    mesh_cells.sort();
    map_cells.sort();
    assert_eq!(map_cells, mesh_cells);
}
