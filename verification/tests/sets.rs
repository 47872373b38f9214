use hd_fpv_osd_font_tool::file::IOError;
use hd_fpv_osd_font_tool::osd::bin_file;
use hd_fpv_osd_font_tool::osd::bin_file::LoadError;
use hd_fpv_osd_font_tool::osd::tile::container::load_symbols_from_dir::DirFile;
use hd_fpv_osd_font_tool::osd::tile::container::save_to_bin_file::SaveToBinFile;
use hd_fpv_osd_font_tool::osd::tile::container::save_to_grid::SaveToGridImage;
use hd_fpv_osd_font_tool::osd::tile::container::symbol::set::LoadFromDirError;
use hd_fpv_osd_font_tool::osd::tile::container::symbol::set::SymbolSet;
use hd_fpv_osd_font_tool::osd::tile::container::symbol::spec::Spec;
use hd_fpv_osd_font_tool::osd::tile::container::symbol::spec::Specs;
use hd_fpv_osd_font_tool::osd::tile::container::symbol::Symbol;
use hd_fpv_osd_font_tool::osd::tile::container::tile_set::LoadFromTileGridsError;
use hd_fpv_osd_font_tool::osd::tile::container::tile_set::LoadTileSetTilesFromDirError;
use hd_fpv_osd_font_tool::osd::tile::container::tile_set::TileSet;
use hd_fpv_osd_font_tool::osd::tile::container::uniq_tile_kind::TileKindError;
use hd_fpv_osd_font_tool::osd::tile::Kind;
use hd_fpv_osd_font_tool::osd::tile::Tile;

fn set_tile(kind: Kind, seed: usize) -> Tile {
    let bytes: Vec<u8> = (0..kind.raw_rgba_size_bytes()).map(|i| ((i * 7 + seed * 29) % 256) as u8).collect();
    Tile::try_from(bytes).unwrap()
}

fn set_tiles(kind: Kind, count: usize) -> Vec<Tile> {
    (0..count).map(|index| set_tile(kind, index)).collect()
}

fn same_tiles(left: &[Tile], right: &[Tile]) -> bool {
    left.len() == right.len()
        && left.iter().zip(right.iter()).all(|(a, b)| a.kind() == b.kind() && a.as_raw() == b.as_raw())
}

fn bin_of(kind: Kind, first: usize) -> Vec<u8> {
    let tiles: Vec<Tile> = (first..first + 256).map(|index| set_tile(kind, index)).collect();
    tiles.save_to_bin_file().unwrap()
}

#[test]
fn tile_set_needs_one_collection_of_each_kind() {
    let set = TileSet::try_from_tiles(set_tiles(Kind::SD, 3), set_tiles(Kind::HD, 2)).unwrap();
    assert_eq!(set.sd_tiles().len(), 3);
    assert_eq!(set.hd_tiles().len(), 2);
    assert_eq!(set.index(Kind::SD).len(), 3);
    assert_eq!(set.index(Kind::HD).len(), 2);
    match TileSet::try_from_tiles(set_tiles(Kind::SD, 3), set_tiles(Kind::SD, 2)) {
        Err(TileKindError::LoadedDoesNotMatchRequested { requested, loaded }) => {
            assert_eq!(requested, Kind::HD);
            assert_eq!(loaded, Kind::SD);
        },
        other => panic!("got {:?}", other.is_ok()),
    }
    match TileSet::try_from_tiles(set_tiles(Kind::HD, 3), set_tiles(Kind::HD, 2)) {
        Err(TileKindError::LoadedDoesNotMatchRequested { requested, loaded }) => {
            assert_eq!(requested, Kind::SD);
            assert_eq!(loaded, Kind::HD);
        },
        other => panic!("got {:?}", other.is_ok()),
    }
    assert!(matches!(TileSet::try_from_tiles(Vec::new(), set_tiles(Kind::HD, 2)), Err(TileKindError::EmptyContainer)));
    assert!(matches!(TileSet::try_from_tiles(set_tiles(Kind::SD, 2), Vec::new()), Err(TileKindError::EmptyContainer)));
    let mut mixed = set_tiles(Kind::HD, 2);
    mixed.push(set_tile(Kind::SD, 0));
    assert!(matches!(TileSet::try_from_tiles(set_tiles(Kind::SD, 2), mixed), Err(TileKindError::MultipleTileKinds)));
    assert_eq!(TileSet::check_collection_kind(&set_tiles(Kind::SD, 1), Kind::SD), Ok(()));
}

#[test]
fn tile_set_bin_files() {
    let set = bin_file::load_set(
        "sd.bin",
        "sd_2.bin",
        "hd.bin",
        "hd_2.bin",
        Ok(bin_of(Kind::SD, 0)),
        Ok(bin_of(Kind::SD, 256)),
        Ok(bin_of(Kind::HD, 0)),
        Ok(bin_of(Kind::HD, 256)),
    )
    .unwrap();
    assert!(same_tiles(set.sd_tiles(), &set_tiles(Kind::SD, 512)));
    assert!(same_tiles(set.hd_tiles(), &set_tiles(Kind::HD, 512)));
    let ((sd, sd_2), (hd, hd_2)) = set.save_to_bin_files().unwrap();
    assert_eq!(sd, bin_of(Kind::SD, 0));
    assert_eq!(sd_2, bin_of(Kind::SD, 256));
    assert_eq!(hd, bin_of(Kind::HD, 0));
    assert_eq!(hd_2, bin_of(Kind::HD, 256));
    let (((sd_path, _), (sd_2_path, _)), ((hd_path, _), (hd_2_path, _))) = set.save_to_bin_files_norm("d", &Some("x")).unwrap();
    assert_eq!(sd_path, "d/font_x.bin");
    assert_eq!(sd_2_path, "d/font_x_2.bin");
    assert_eq!(hd_path, "d/font_x_hd.bin");
    assert_eq!(hd_2_path, "d/font_x_hd_2.bin");
}

#[test]
fn tile_set_bin_files_errors() {
    match bin_file::load_set_norm(
        "d",
        &None,
        Ok(bin_of(Kind::SD, 0)),
        Ok(bin_of(Kind::SD, 256)),
        Ok(bin_of(Kind::HD, 0)),
        Ok(bin_of(Kind::SD, 0)),
    ) {
        Err(LoadError::LoadedTileKindDoesNotMatchRequested { file_path, loaded, requested }) => {
            assert_eq!(file_path, "d/font_hd_2.bin");
            assert_eq!(loaded, Kind::SD);
            assert_eq!(requested, Kind::HD);
        },
        other => panic!("got {:?}", other.is_ok()),
    }
    match TileSet::load_bin_files_norm("d", &None, Err(IOError::not_found()), Ok(Vec::new()), Ok(Vec::new()), Ok(Vec::new())) {
        Err(error) => assert!(error.because_file_is_missing()),
        Ok(_) => panic!("did not get an error !"),
    }
}

#[test]
fn tile_set_grids() {
    let sd = set_tiles(Kind::SD, 16).save_to_grid_image("sd.png").unwrap();
    let hd = set_tiles(Kind::HD, 16).save_to_grid_image("hd.png").unwrap();
    let set = TileSet::load_from_tile_grids("sd.png", "hd.png", &Ok(sd.clone()), &Ok(hd.clone())).unwrap();
    let (sd_again, hd_again) = set.save_to_grids("a.png", "b.png").unwrap();
    assert_eq!(sd_again, sd);
    assert_eq!(hd_again, hd);
    let ((sd_path, sd_norm), (hd_path, _)) = set.save_to_grids_norm("out", &None).unwrap();
    assert_eq!(sd_path, "out/grid.png");
    assert_eq!(hd_path, "out/grid_hd.png");
    assert_eq!(sd_norm, sd);
    assert!(matches!(
        TileSet::load_from_tile_grids("sd.png", "hd.png", &Ok(sd.clone()), &Ok(sd)),
        Err(LoadFromTileGridsError::TileKindError(TileKindError::LoadedDoesNotMatchRequested { requested: Kind::HD, loaded: Kind::SD }))
    ));
    assert!(matches!(
        TileSet::load_from_tile_grids("sd.png", "hd.png", &Err(IOError::not_found()), &Ok(hd)),
        Err(LoadFromTileGridsError::GridImageLoadError(_))
    ));
}

#[test]
fn tile_set_directories() {
    let set = TileSet::try_from_tiles(set_tiles(Kind::SD, 3), set_tiles(Kind::HD, 2)).unwrap();
    let files = set.save_tiles_to_dir("font").unwrap();
    let names: Vec<&str> = files.iter().map(|(path, _)| path.as_str()).collect();
    assert_eq!(names, vec!["font/SD/000.png", "font/SD/001.png", "font/SD/002.png", "font/HD/000.png", "font/HD/001.png"]);
    let sd_files: Vec<Result<Vec<u8>, IOError>> = files[0..3].iter().map(|(_, content)| Ok(content.clone())).collect();
    let hd_files: Vec<Result<Vec<u8>, IOError>> = files[3..5].iter().map(|(_, content)| Ok(content.clone())).collect();
    let loaded = TileSet::load_from_dir("font", &sd_files, &hd_files).unwrap();
    assert!(same_tiles(loaded.sd_tiles(), set.sd_tiles()));
    assert!(same_tiles(loaded.hd_tiles(), set.hd_tiles()));
    assert!(matches!(
        TileSet::load_from_dir("font", &hd_files, &sd_files),
        Err(LoadTileSetTilesFromDirError::TileKindError(TileKindError::LoadedDoesNotMatchRequested { requested: Kind::SD, loaded: Kind::HD }))
    ));
    assert!(matches!(
        TileSet::load_from_dir("font", &Vec::new(), &hd_files),
        Err(LoadTileSetTilesFromDirError::LoadTilesFromDirError(_))
    ));
}

#[test]
fn symbol_set_round_trip() {
    let set = TileSet::try_from_tiles(set_tiles(Kind::SD, 8), set_tiles(Kind::HD, 8)).unwrap();
    let specs = Specs::from(vec![Spec::new(2, 3)]);
    let symbols = set.into_symbol_set(&specs).unwrap();
    assert_eq!(symbols.sd_symbols().len(), 6);
    assert_eq!(symbols.hd_symbols().len(), 6);
    assert_eq!(symbols.index(Kind::HD)[2].span(), 3);
    let files = symbols.save_to_dir("font").unwrap();
    assert_eq!(files.len(), 12);
    assert_eq!(files[2].0, "font/SD/002-004.png");
    assert_eq!(files[8].0, "font/HD/002-004.png");
    let sd_files: Vec<DirFile> = files[0..6].iter().map(|(path, content)| DirFile::new(path.strip_prefix("font/SD/").unwrap().to_owned(), Ok(content.clone()))).collect();
    let hd_files: Vec<DirFile> = files[6..12].iter().map(|(path, content)| DirFile::new(path.strip_prefix("font/HD/").unwrap().to_owned(), Ok(content.clone()))).collect();
    let loaded = SymbolSet::load_from_dir("font", &sd_files, &hd_files, 512).unwrap();
    let tiles = TileSet::from(loaded);
    assert!(same_tiles(tiles.sd_tiles(), &set_tiles(Kind::SD, 8)));
    assert!(same_tiles(tiles.hd_tiles(), &set_tiles(Kind::HD, 8)));
    assert!(matches!(
        SymbolSet::load_from_dir("font", &hd_files, &sd_files, 512),
        Err(LoadFromDirError::TileKindError(TileKindError::LoadedDoesNotMatchRequested { requested: Kind::SD, loaded: Kind::HD }))
    ));
    assert!(matches!(
        SymbolSet::load_from_dir("font", &sd_files, &Vec::new(), 512),
        Err(LoadFromDirError::LoadSymbolsFromDirError(_))
    ));
}

#[test]
fn symbol_set_needs_one_collection_of_each_kind() {
    assert!(SymbolSet::try_from_symbols(vec![Symbol::new(Kind::SD)], vec![Symbol::new(Kind::HD)]).is_ok());
    assert!(matches!(
        SymbolSet::try_from_symbols(vec![Symbol::new(Kind::SD)], vec![Symbol::new(Kind::SD)]),
        Err(TileKindError::LoadedDoesNotMatchRequested { requested: Kind::HD, loaded: Kind::SD })
    ));
    assert!(matches!(SymbolSet::try_from_symbols(Vec::new(), vec![Symbol::new(Kind::HD)]), Err(TileKindError::EmptyContainer)));
    assert_eq!(SymbolSet::check_collection_kind(&vec![Symbol::new(Kind::HD)], Kind::SD), Err(TileKindError::LoadedDoesNotMatchRequested { requested: Kind::SD, loaded: Kind::HD }));
    let set = TileSet::try_from_tiles(set_tiles(Kind::SD, 2), set_tiles(Kind::HD, 2)).unwrap();
    assert!(matches!(set.into_symbol_set(&Specs::from(vec![Spec::new(1, 0)])), Err(TileKindError::EmptyContainer)));
}
