use chipper::display::bits_from_u8;
use chipper::display::Sprite;
use chipper::display::Vram;
use chipper::display::VRAM_HEIGHT;
use chipper::display::VRAM_WIDTH;

#[test]
fn display_from_u8() {
    let val = 253;
    let bits = bits_from_u8(val);
    assert_eq!(
        bits,
        Vec::from([true, true, true, true, true, true, false, true])
    );
}

#[test]
fn get_pixel_test_valid() {
    let vram = Vram::default();
    let pixel = vram.get_pixel(63, 31).unwrap();
    assert!(*pixel == 0);
}

#[test]
#[should_panic]
fn get_pixel_test_invalid() {
    let vram = Vram::default();
    let pixel = vram.get_pixel(64, 30).unwrap();
    assert!(*pixel == 0);
}

#[test]
fn get_pixel_mut_test_valid() {
    let mut vram = Vram::default();
    let pixel = vram.get_pixel_mut(63, 31).unwrap();
    assert!(*pixel == 0);
    *pixel = 255;
}

#[test]
#[should_panic]
fn get_pixel_mut_test_invalid() {
    let mut vram = Vram::default();
    let pixel = vram.get_pixel_mut(64, 30).unwrap();
    assert!(*pixel == 0);
    *pixel = 1;
}

#[test]
fn set_pixel_test_valid() {
    let mut vram: Vram = Vram::default();
    vram.set_pixel(63, 8);
    assert_eq!(*vram.get_pixel(63, 8).unwrap(), 1);
    vram.set_pixel(63, 8);
    assert_eq!(*vram.get_pixel(63, 8).unwrap(), 0);
}

#[test]
#[should_panic]
fn set_pixel_test_invalid() {
    let mut vram = Vram::default();
    vram.set_pixel(63, 33);
    assert_eq!(*vram.get_pixel(63, 8).unwrap(), 1);
    vram.set_pixel(63, 8);
    assert_eq!(*vram.get_pixel(63, 8).unwrap(), 1);
    vram.set_pixel(63, 8);
    assert_eq!(*vram.get_pixel(63, 8).unwrap(), 1);
}

#[test]
fn draw_sprite_test() {
    let sprite = Sprite::try_from(vec![1, 1, 1, 1]).unwrap();
    let mut vram = Vram::default();
    vram.put_sprite(sprite, 3, 3);
}

#[test]
fn draw_sprite_xor_test() {
    let sprite = Sprite::try_from(vec![255, 255, 255, 255]).unwrap();
    let mut vram = Vram::default();
    vram.put_sprite(sprite, 3, 3);
    let sprite = Sprite::try_from(vec![255, 255, 255, 255]).unwrap();
    vram.put_sprite(sprite, 3, 3);
    assert_eq!(vram.arr, [[0; VRAM_WIDTH]; VRAM_HEIGHT]);
    vram.clear();
    assert_eq!(vram.arr, [[0; VRAM_WIDTH]; VRAM_HEIGHT]);
}

#[test]
fn draw_sprite_oob_test() {
    let sprite = Sprite::try_from(vec![255, 255, 255, 255]).unwrap();
    let mut vram = Vram::default();
    vram.put_sprite(sprite, 58, 3);
    println!("{:?}", vram.arr);
}
