use async_chat::image::Image;

#[test]
fn index() {
    let image = Image::<u8>::new(10, 11);
    for row in 0..image.height() {
        assert_eq!(image[row].len(), 10);
        for column in 0..image.width() {
            assert_eq!(image[row][column], 0u8);
        }
    }
}

#[test]
fn index_mut() {
    let mut image = Image::<f64>::new(200, 99);
    for row in 0..image.height() {
        for column in 0..image.width() {
            assert_eq!(image[row][column], 0.0);
            image[row][column] = (row * column) as f64;
        }
    }
    assert_eq!(image[98][199], (98 * 199) as f64);
}

#[test]
fn new() {
    let image = Image::<u8>::new(10, 11);
    assert_eq!(image.width(), 10);
    assert_eq!(image.pixels().len(), 110);
}
