use pixelping::codec::{Position, Rgb};
use pixelping::loader::{check_dims, image_to_bitmap, ConversionError, PixelBuffer};

fn solid(width: usize, height: usize, color: Rgb) -> PixelBuffer {
    PixelBuffer::new(width, height, vec![color; width * height]).unwrap()
}

const GREY: Rgb = Rgb {
    r: 0x80,
    g: 0x80,
    b: 0x80,
};

#[test]
fn bounds_corner_flush_rejected() {
    // A 51x45 image at (109, 75) has its bottom-right corner exactly at
    // (160, 120); the bound is exclusive, so it is rejected.
    let r = check_dims(solid(51, 45, GREY), Position { x: 109, y: 75 });
    assert_eq!(r.unwrap_err(), ConversionError::DimensionsExceeded);
}

#[test]
fn bounds_strictly_inside_accepted() {
    let r = check_dims(solid(51, 45, GREY), Position { x: 108, y: 74 });
    let buffer = r.unwrap();
    assert_eq!(buffer.width, 51);
    assert_eq!(buffer.height, 45);
    assert_eq!(buffer.pixels.len(), 51 * 45);
}

#[test]
fn bounds_exceeded_in_x_only() {
    let r = check_dims(solid(51, 45, GREY), Position { x: 110, y: 0 });
    assert_eq!(r.unwrap_err(), ConversionError::DimensionsExceeded);
}

#[test]
fn bounds_exceeded_in_y_only() {
    let r = check_dims(solid(51, 45, GREY), Position { x: 0, y: 76 });
    assert_eq!(r.unwrap_err(), ConversionError::DimensionsExceeded);
}

#[test]
fn decode_failure_propagated() {
    let r = image_to_bitmap(b"this is not a png resource", Position { x: 0, y: 0 });
    match r {
        Err(ConversionError::LodePNGError(message)) => {
            assert!(!message.is_empty());
        }
        other => panic!("expected a decode error, got {:?}", other),
    }
}

#[test]
fn decode_round_trip() {
    let pixels = [
        Rgb { r: 0xff, g: 0, b: 0 },
        Rgb { r: 0, g: 0xff, b: 0 },
        Rgb {
            r: 0xde,
            g: 0xad,
            b: 0xbe,
        },
        Rgb {
            r: 0xff,
            g: 0xff,
            b: 0xff,
        },
    ];
    let raw: Vec<u8> = pixels.iter().flat_map(|p| [p.r, p.g, p.b]).collect();
    let png = lodepng::encode24(&raw, 2, 2).unwrap();

    let buffer = image_to_bitmap(&png, Position { x: 0, y: 0 }).unwrap();
    assert_eq!(buffer.width, 2);
    assert_eq!(buffer.height, 2);
    assert_eq!(buffer.pixels, pixels.to_vec());
}

#[test]
fn decoded_image_out_of_bounds_rejected() {
    let raw: Vec<u8> = vec![0x11; 200 * 3];
    let png = lodepng::encode24(&raw, 200, 1).unwrap();
    let r = image_to_bitmap(&png, Position { x: 0, y: 0 });
    assert_eq!(r.unwrap_err(), ConversionError::DimensionsExceeded);
}

#[test]
fn pixel_buffer_length_checked() {
    assert!(PixelBuffer::new(2, 2, vec![GREY; 3]).is_none());
    assert!(PixelBuffer::new(2, 2, vec![GREY; 4]).is_some());
    assert!(PixelBuffer::new(0, 5, vec![]).is_some());
}

#[test]
fn error_messages() {
    assert_eq!(
        ConversionError::DimensionsExceeded.message(),
        "image can't fit in given position"
    );
    let e = ConversionError::LodePNGError(String::from("broken stream"));
    assert_eq!(e.message(), "broken stream");
}
