use hd_fpv_osd_font_tool::arguments::argument_norm_args;
use hd_fpv_osd_font_tool::arguments::check_arg_image_file_extension;
use hd_fpv_osd_font_tool::arguments::identify_convert_arg;
use hd_fpv_osd_font_tool::arguments::identify_convert_set_arg;
use hd_fpv_osd_font_tool::arguments::path_extension;
use hd_fpv_osd_font_tool::arguments::same_text;
use hd_fpv_osd_font_tool::arguments::ConvertArg;
use hd_fpv_osd_font_tool::arguments::ConvertSetArg;
use hd_fpv_osd_font_tool::arguments::InvalidConvertArgError;
use hd_fpv_osd_font_tool::arguments::InvalidConvertSetArgError;
use hd_fpv_osd_font_tool::decimal::decimal_string;
use hd_fpv_osd_font_tool::decimal::padded3_string;
use hd_fpv_osd_font_tool::decimal::parse_digits;
use hd_fpv_osd_font_tool::path::join;
use hd_fpv_osd_font_tool::text::find_char;
use hd_fpv_osd_font_tool::text::find_last_char;
use hd_fpv_osd_font_tool::text::split_text;

#[test]
fn convert_args() {
    assert!(matches!(identify_convert_arg("djibin:font.bin"), Ok(ConvertArg::BinFile(path)) if path == "font.bin"));
    assert!(matches!(identify_convert_arg("tilegrid:a/b.png"), Ok(ConvertArg::TileGrid(path)) if path == "a/b.png"));
    assert!(matches!(identify_convert_arg("tiledir:tiles"), Ok(ConvertArg::TileDir(path)) if path == "tiles"));
    assert!(matches!(identify_convert_arg("symdir:"), Ok(ConvertArg::SymbolDir(path)) if path.is_empty()));
    assert!(matches!(identify_convert_arg("avatar:c:/x.png"), Ok(ConvertArg::AvatarFile(path)) if path == "c:/x.png"));
    assert!(matches!(identify_convert_arg("bin:font.bin"), Err(InvalidConvertArgError::InvalidPrefix(prefix)) if prefix == "bin"));
    assert!(matches!(identify_convert_arg(":font.bin"), Err(InvalidConvertArgError::InvalidPrefix(prefix)) if prefix.is_empty()));
    assert!(matches!(identify_convert_arg("DJIBIN:font.bin"), Err(InvalidConvertArgError::InvalidPrefix(prefix)) if prefix == "DJIBIN"));
    assert!(matches!(identify_convert_arg("font.bin"), Err(InvalidConvertArgError::NoPrefix)));
    assert!(matches!(identify_convert_arg(""), Err(InvalidConvertArgError::NoPrefix)));
    let arg = identify_convert_arg("tiledir:out").unwrap();
    assert_eq!(arg.prefix(), "tiledir");
    assert_eq!(arg.path(), "out");
    assert_eq!(identify_convert_arg("djibin:x").unwrap().prefix(), "djibin");
}

#[test]
fn image_file_extensions() {
    assert!(check_arg_image_file_extension("grid.png").is_ok());
    assert!(check_arg_image_file_extension("a.b/grid.x.png").is_ok());
    assert!(matches!(
        check_arg_image_file_extension("grid.jpg"),
        Err(InvalidConvertArgError::InvalidImageFileExtension { path, extension: Some(extension) }) if path == "grid.jpg" && extension == "jpg"
    ));
    assert!(matches!(
        check_arg_image_file_extension("grid.PNG"),
        Err(InvalidConvertArgError::InvalidImageFileExtension { extension: Some(extension), .. }) if extension == "PNG"
    ));
    for path in ["grid", "a.png/grid", ".png", "dir/.png", "", "..", "a/.."] {
        assert!(
            matches!(check_arg_image_file_extension(path), Err(InvalidConvertArgError::InvalidImageFileExtension { extension: None, .. })),
            "{path}"
        );
    }
    assert_eq!(path_extension("a/b.tar.gz"), Some("gz".to_owned()));
    assert_eq!(path_extension("b."), Some(String::new()));
    assert_eq!(path_extension("..."), Some(String::new()));
}

#[test]
fn convert_set_args() {
    match identify_convert_set_arg("djibinset:a:b:c:d") {
        Ok(ConvertSetArg::BinFileSet { sd_path, sd_2_path, hd_path, hd_2_path }) => {
            assert_eq!((sd_path.as_str(), sd_2_path.as_str(), hd_path.as_str(), hd_2_path.as_str()), ("a", "b", "c", "d"));
        },
        other => panic!("got {other:?}"),
    }
    assert!(matches!(identify_convert_set_arg("djibinset:a:b:c"), Err(InvalidConvertSetArgError::BinSetInvalidArguments("too few arguments"))));
    assert!(matches!(identify_convert_set_arg("djibinset:"), Err(InvalidConvertSetArgError::BinSetInvalidArguments("too few arguments"))));
    assert!(matches!(identify_convert_set_arg("djibinset:a:b:c:d:e"), Err(InvalidConvertSetArgError::BinSetInvalidArguments("too many arguments"))));
    assert!(matches!(identify_convert_set_arg("djibinsetnorm:dir:id"), Ok(ConvertSetArg::BinFileSetNorm { dir, ident: Some(ident) }) if dir == "dir" && ident == "id"));
    assert!(matches!(identify_convert_set_arg("djibinsetnorm:dir"), Ok(ConvertSetArg::BinFileSetNorm { dir, ident: None }) if dir == "dir"));
    assert!(matches!(identify_convert_set_arg("djibinsetnorm:"), Ok(ConvertSetArg::BinFileSetNorm { dir, ident: None }) if dir.is_empty()));
    assert!(matches!(identify_convert_set_arg("djibinsetnorm:a:b:c"), Err(InvalidConvertSetArgError::BinSetInvalidArguments("too many arguments"))));
    assert!(matches!(identify_convert_set_arg("tilesetgrids:s.png:h.png"), Ok(ConvertSetArg::TileSetGrids { sd_path, hd_path }) if sd_path == "s.png" && hd_path == "h.png"));
    assert!(matches!(identify_convert_set_arg("tilesetgrids:s.png"), Err(InvalidConvertSetArgError::TileSetGridsInvalidArguments("too few arguments"))));
    assert!(matches!(identify_convert_set_arg("tilesetgrids:a:b:c"), Err(InvalidConvertSetArgError::TileSetGridsInvalidArguments("too many arguments"))));
    assert!(matches!(identify_convert_set_arg("tilesetgridsnorm:dir:id"), Ok(ConvertSetArg::TileSetGridsNorm { dir, ident: Some(ident) }) if dir == "dir" && ident == "id"));
    assert!(matches!(identify_convert_set_arg("tilesetgridsnorm:a:b:c"), Err(InvalidConvertSetArgError::BinSetInvalidArguments("too many arguments"))));
    assert!(matches!(identify_convert_set_arg("tilesetdir:a:b"), Ok(ConvertSetArg::TileSetDir(path)) if path == "a:b"));
    assert!(matches!(identify_convert_set_arg("symsetdir:fonts"), Ok(ConvertSetArg::SymbolSetDir(path)) if path == "fonts"));
    assert!(matches!(
        identify_convert_set_arg("tiledir:fonts"),
        Err(InvalidConvertSetArgError::InvalidConvertArgError(InvalidConvertArgError::InvalidPrefix(prefix))) if prefix == "tiledir"
    ));
    assert!(matches!(
        identify_convert_set_arg("fonts"),
        Err(InvalidConvertSetArgError::InvalidConvertArgError(InvalidConvertArgError::NoPrefix))
    ));
    assert_eq!(identify_convert_set_arg("symsetdir:x").unwrap().prefix(), "symsetdir");
    assert_eq!(identify_convert_set_arg("djibinsetnorm:x").unwrap().prefix(), "djibinsetnorm");
}

#[test]
fn norm_args() {
    assert_eq!(argument_norm_args("dir:id").unwrap(), ("dir".to_owned(), Some("id".to_owned())));
    assert_eq!(argument_norm_args("dir").unwrap(), ("dir".to_owned(), None));
    assert_eq!(argument_norm_args("dir:").unwrap(), ("dir".to_owned(), Some(String::new())));
    assert_eq!(argument_norm_args("").unwrap(), (String::new(), None));
    assert!(argument_norm_args("a:b:c").is_err());
}

#[test]
fn texts() {
    assert_eq!(find_char("a:b:c", ':', 0), 1);
    assert_eq!(find_char("a:b:c", ':', 2), 3);
    assert_eq!(find_char("a:b:c", ':', 4), 5);
    assert_eq!(find_char("héllo:x", ':', 0), 5);
    assert_eq!(find_last_char("a/b/c", '/'), Some(3));
    assert_eq!(find_last_char("abc", '/'), None);
    assert_eq!(split_text("a:b::c", ':'), vec!["a", "b", "", "c"]);
    assert_eq!(split_text("", ':'), vec![""]);
    assert_eq!(split_text(":", ':'), vec!["", ""]);
    assert_eq!(split_text("abc", ':'), vec!["abc"]);
    assert!(same_text("png", "png"));
    assert!(!same_text("png", "pn"));
}

#[test]
fn decimal_texts() {
    assert_eq!(decimal_string(0), "0");
    assert_eq!(decimal_string(9), "9");
    assert_eq!(decimal_string(10), "10");
    assert_eq!(decimal_string(65535), "65535");
    assert_eq!(decimal_string(usize::MAX), usize::MAX.to_string());
    assert_eq!(padded3_string(0), "000");
    assert_eq!(padded3_string(5), "005");
    assert_eq!(padded3_string(50), "050");
    assert_eq!(padded3_string(500), "500");
    assert_eq!(padded3_string(5000), "5000");
    assert_eq!(parse_digits("a123b", 1, 4), Some(123));
    assert_eq!(parse_digits("a123b", 1, 5), None);
    assert_eq!(parse_digits("007", 0, 3), Some(7));
    assert_eq!(parse_digits("007", 1, 1), Some(0));
    let max = usize::MAX.to_string();
    assert_eq!(parse_digits(&max, 0, max.len()), Some(usize::MAX));
    let too_big = format!("{}0", max);
    assert_eq!(parse_digits(&too_big, 0, too_big.len()), None);
    assert_eq!(parse_digits("18446744073709551616", 0, 20), if usize::MAX as u128 >= 18446744073709551616 { Some(0) } else { None });
}

#[test]
fn joined_paths() {
    assert_eq!(join("a", "b"), "a/b");
    assert_eq!(join("a/", "b"), "a/b");
    assert_eq!(join("", "b"), "b");
    assert_eq!(join("a", "/b"), "/b");
    assert_eq!(join("a", ""), "a/");
    assert_eq!(join("/", "b"), "/b");
}
