use batch_loader::loader::Loader;
use batch_loader::outcome::Error;
use batch_loader::result_map::ResultMap;

fn finished_map(entries: &[(&str, Result<Vec<u8>, &str>)]) -> ResultMap {
    let names: Vec<String> = entries.iter().map(|(n, _)| n.to_string()).collect();
    let mut batch = Loader::load_with_progress(&names);
    for (name, result) in entries.iter() {
        let r = match result {
            Ok(bytes) => Ok(bytes.clone()),
            Err(msg) => Err(batch_loader::outcome::FetchError { message: msg.to_string() }),
        };
        batch.resolve(&name.to_string(), r);
    }
    batch.tick();
    assert!(batch.is_done());
    batch.finish()
}

fn png_bytes(width: u32, height: u32) -> Vec<u8> {
    let img = image::DynamicImage::ImageRgb8(image::RgbImage::new(width, height));
    let mut buf: Vec<u8> = Vec::new();
    img.write_to(&mut std::io::Cursor::new(&mut buf), image::ImageFormat::Png)
        .unwrap();
    buf
}

#[test]
fn get_image_decodes_fetched_bytes() {
    let loaded = finished_map(&[("tex.png", Ok(png_bytes(3, 2)))]);
    let img = Loader::get_image(&loaded, &"tex.png".to_string()).unwrap();
    assert_eq!(img.width(), 3);
    assert_eq!(img.height(), 2);
}

#[test]
fn get_image_rejects_undecodable_bytes() {
    let loaded = finished_map(&[("junk.png", Ok(vec![0, 1, 2, 3, 4]))]);
    let r = Loader::get_image(&loaded, &"junk.png".to_string());
    assert!(matches!(r, Err(Error::Image(_))));
}

#[test]
fn get_image_propagates_lookup_errors() {
    let loaded = finished_map(&[("broken.png", Err("connection reset"))]);
    assert!(matches!(
        Loader::get_image(&loaded, &"broken.png".to_string()),
        Err(Error::LoadFailed)
    ));
    assert!(matches!(
        Loader::get_image(&loaded, &"absent.png".to_string()),
        Err(Error::NotLoaded)
    ));
}
