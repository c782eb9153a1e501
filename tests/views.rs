use pixel_image::physical_image::PhysicalImage;
use pixel_image::{AreaView, AreaViewMut, ReadPixel, Rectangle, WritePixel};

fn numbered(width: usize, height: usize) -> PhysicalImage<usize> {
    let mut image = PhysicalImage::new(width, height);
    for y in 0..height {
        for x in 0..width {
            *image.get_mut(x, y).unwrap() = width * y + x;
        }
    }
    image
}

#[test]
fn view() {
    const WIDTH: usize = 50;
    const HEIGHT: usize = 50;
    let mut image = PhysicalImage::new(WIDTH, HEIGHT);
    for y in 0..HEIGHT {
        for x in 0..WIDTH {
            *image.get_mut(x, y).unwrap() = WIDTH * y + x;
        }
    }
    let image_ref = image.view(10usize, 10usize, 30usize, 30usize).unwrap();
    for y in 0..30 {
        for x in 0..30 {
            assert_eq!(image_ref.get(x, y), Some(&(WIDTH * (y + 10) + x + 10)));
        }
    }
    assert!(image_ref.view(20, 20, 10, 11).is_none());
    assert!(image_ref.view(20, 20, 11, 10).is_none());
    assert!(image_ref.view(20, 21, 10, 10).is_none());
    assert!(image_ref.view(21, 20, 10, 10).is_none());
    {
        let image_ref = image_ref.view(10usize, 10usize, 10usize, 10usize).unwrap();
        for y in 0..10 {
            for x in 0..10 {
                assert_eq!(image_ref.get(x, y), Some(&(WIDTH * (y + 20) + x + 20)));
            }
        }
    }
    {
        let image_ref = image_ref.view_overhang(-10, -10, 20, 20);
        for y in 0..20 {
            for x in 0..20 {
                if x < 10 || y < 10 {
                    assert_eq!(image_ref.get(x, y), None);
                } else {
                    assert_eq!(image_ref.get(x, y), Some(&(WIDTH * (y) + x)));
                }
            }
        }
    }
    {
        let image_ref = image_ref.view_overhang(20, -10, 20, 20);
        for y in 0..20 {
            for x in 0..20 {
                if x >= 10 || y < 10 {
                    assert_eq!(image_ref.get(x, y), None);
                } else {
                    assert_eq!(image_ref.get(x, y), Some(&(WIDTH * (y) + x + 30)));
                }
            }
        }
    }
    {
        let image_ref = image_ref.view_overhang(-10, 20, 20, 20);
        for y in 0..20 {
            for x in 0..20 {
                if x < 10 || y >= 10 {
                    assert_eq!(image_ref.get(x, y), None);
                } else {
                    assert_eq!(image_ref.get(x, y), Some(&(WIDTH * (y + 30) + x)));
                }
            }
        }
    }
    {
        let image_ref = image_ref.view_overhang(20, 20, 20, 20);
        for y in 0..20 {
            for x in 0..20 {
                if x >= 10 || y >= 10 {
                    assert_eq!(image_ref.get(x, y), None);
                } else {
                    assert_eq!(image_ref.get(x, y), Some(&(WIDTH * (y + 30) + x + 30)));
                }
            }
        }
    }
    let mut image_ref = image.view_mut(10, 10, 30, 30).unwrap();
    assert!(image_ref.view(20, 20, 10, 11).is_none());
    assert!(image_ref.view(20, 20, 11, 10).is_none());
    assert!(image_ref.view(20, 21, 10, 10).is_none());
    assert!(image_ref.view(21, 20, 10, 10).is_none());
    assert!(image_ref.view_mut(20, 20, 10, 11).is_none());
    assert!(image_ref.view_mut(20, 20, 11, 10).is_none());
    assert!(image_ref.view_mut(20, 21, 10, 10).is_none());
    assert!(image_ref.view_mut(21, 20, 10, 10).is_none());
    {
        let image_ref = image_ref.view(10usize, 10usize, 10usize, 10usize).unwrap();
        for y in 0..10 {
            for x in 0..10 {
                assert_eq!(image_ref.get(x, y), Some(&(WIDTH * (y + 20) + x + 20)));
            }
        }
    }
    {
        let mut image_ref = image_ref.view_mut(10usize, 10usize, 10usize, 10usize).unwrap();
        for y in 0..10 {
            for x in 0..10 {
                assert_eq!(image_ref.get(x, y), Some(&(WIDTH * (y + 20) + x + 20)));
                assert_eq!(image_ref.get_mut(x, y), Some(&mut (WIDTH * (y + 20) + x + 20)));
            }
        }
    }
    {
        let image_ref = image_ref.view_overhang(-5, -5, 10, 10);
        for y in 0..10 {
            for x in 0..10 {
                if x < 5 || y < 5 {
                    assert_eq!(image_ref.get(x, y), None);
                } else {
                    assert_eq!(image_ref.get(x, y), Some(&(WIDTH * (y + 5) + x + 5)));
                }
            }
        }
    }
    {
        let mut image_ref = image_ref.view_overhang_mut(-5, -5, 10, 10);
        for y in 0..10 {
            for x in 0..10 {
                if x < 5 || y < 5 {
                    assert_eq!(image_ref.get(x, y), None);
                    assert_eq!(image_ref.get_mut(x, y), None);
                } else {
                    assert_eq!(image_ref.get(x, y), Some(&(WIDTH * (y + 5) + x + 5)));
                    assert_eq!(image_ref.get_mut(x, y), Some(&mut (WIDTH * (y + 5) + x + 5)));
                }
            }
        }
    }
}

#[test]
fn overhang() {
    const WIDTH: usize = 50;
    const HEIGHT: usize = 50;
    let mut image = PhysicalImage::new(WIDTH, HEIGHT);
    for y in 0..HEIGHT {
        for x in 0..WIDTH {
            *image.get_mut(x, y).unwrap() = WIDTH * y + x;
        }
    }
    let image_ref = image.view_overhang(10, 10, 30, 30);
    assert!(image_ref.view(20, 20, 10, 11).is_none());
    assert!(image_ref.view(20, 20, 11, 10).is_none());
    assert!(image_ref.view(20, 21, 10, 10).is_none());
    assert!(image_ref.view(21, 20, 10, 10).is_none());
    {
        let image_ref = image_ref.view(20, 20, 10, 10).unwrap();
        for y in 0..10 {
            for x in 0..10 {
                assert_eq!(image_ref.get(x, y), Some(&((y + 30) * WIDTH + x + 30)));
            }
        }
    }
    {
        let image_ref = image.view_overhang(-10, -10, 20, 20);
        let image_ref = image_ref.view_overhang(5, 5, 10, 10);
        for y in 0..10 {
            for x in 0..10 {
                if x < 5 || y < 5 {
                    assert_eq!(image_ref.get(x, y), None);
                } else {
                    assert_eq!(image_ref.get(x, y), Some(&((y - 5) * WIDTH + x - 5)));
                }
            }
        }
    }
    {
        let image_ref = image.view_overhang_mut(-10, -10, 20, 20);
        let image_ref = image_ref.view_overhang(5, 5, 10, 10);
        for y in 0..10 {
            for x in 0..10 {
                if x < 5 || y < 5 {
                    assert_eq!(image_ref.get(x, y), None);
                } else {
                    assert_eq!(image_ref.get(x, y), Some(&((y - 5) * WIDTH + x - 5)));
                }
            }
        }
    }
    {
        let mut image_ref = image.view_overhang_mut(-10, -10, 20, 20);
        let mut image_ref = image_ref.view_overhang_mut(5, 5, 10, 10);
        for y in 0..10 {
            for x in 0..10 {
                if x < 5 || y < 5 {
                    assert_eq!(image_ref.get(x, y), None);
                    assert_eq!(image_ref.get_mut(x, y), None);
                } else {
                    assert_eq!(image_ref.get(x, y), Some(&((y - 5) * WIDTH + x - 5)));
                    assert_eq!(image_ref.get_mut(x, y), Some(&mut ((y - 5) * WIDTH + x - 5)));
                }
            }
        }
    }
    let image_ref = image.view_overhang(-10, 10, 30, 30);
    assert!(image_ref.view(9, 0, 10, 10).is_none());
    assert!(image_ref.view(10, 0, 10, 10).is_some());
    let image_ref = image.view_overhang(10, -10, 30, 30);
    assert!(image_ref.view(0, 9, 10, 10).is_none());
    assert!(image_ref.view(0, 10, 10, 10).is_some());
    let image_ref = image.view_overhang(40, 10, 30, 30);
    assert!(image_ref.view(1, 0, 10, 10).is_none());
    assert!(image_ref.view(0, 0, 10, 10).is_some());
    let image_ref = image.view_overhang(10, 40, 30, 30);
    assert!(image_ref.view(0, 1, 10, 10).is_none());
    assert!(image_ref.view(0, 0, 10, 10).is_some());
    let mut image_ref = image.view_overhang_mut(-10, 10, 30, 30);
    assert!(image_ref.view(9, 0, 10, 10).is_none());
    assert!(image_ref.view(10, 0, 10, 10).is_some());
    assert!(image_ref.view_mut(9, 0, 10, 10).is_none());
    assert!(image_ref.view_mut(10, 0, 10, 10).is_some());
    let mut image_ref = image.view_overhang_mut(10, -10, 30, 30);
    assert!(image_ref.view(0, 9, 10, 10).is_none());
    assert!(image_ref.view(0, 10, 10, 10).is_some());
    assert!(image_ref.view_mut(0, 9, 10, 10).is_none());
    assert!(image_ref.view_mut(0, 10, 10, 10).is_some());
    let mut image_ref = image.view_overhang_mut(40, 10, 30, 30);
    assert!(image_ref.view(1, 0, 10, 10).is_none());
    assert!(image_ref.view(0, 0, 10, 10).is_some());
    assert!(image_ref.view_mut(1, 0, 10, 10).is_none());
    assert!(image_ref.view_mut(0, 0, 10, 10).is_some());
    let mut image_ref = image.view_overhang_mut(10, 40, 30, 30);
    assert!(image_ref.view(0, 1, 10, 10).is_none());
    assert!(image_ref.view(0, 0, 10, 10).is_some());
    assert!(image_ref.view_mut(0, 1, 10, 10).is_none());
    assert!(image_ref.view_mut(0, 0, 10, 10).is_some());
}

#[test]
fn new_physical_image() {
    let image = PhysicalImage::<Option<()>>::new(10, 10);
    assert_eq!(image.data(), &vec![None; 100]);
    assert_eq!(image.width(), 10);
    assert_eq!(image.height(), 10);
    let image = PhysicalImage::<i32>::with_default(10, 10, 10);
    assert_eq!(image.data(), &vec![10; 100]);
    assert_eq!(image.width(), 10);
    assert_eq!(image.height(), 10);
}

#[test]
fn pixel_physical_image() {
    const WIDTH: usize = 10;
    const HEIGHT: usize = 20;
    let mut image = PhysicalImage::new(WIDTH, HEIGHT);
    for y in 0..HEIGHT {
        for x in 0..WIDTH {
            assert_eq!(image.get_mut(x, y), Some(&mut 0));
            *image.get_mut(x, y).unwrap() = y * WIDTH + x;
        }
    }
    for y in 0..HEIGHT {
        assert_eq!(image.get_mut(WIDTH, y), None);
    }
    for x in 0..WIDTH {
        assert_eq!(image.get_mut(x, HEIGHT), None);
    }
    assert_eq!(image.data(), &(0..WIDTH * HEIGHT).into_iter().collect::<Vec<_>>());
    for y in 0..HEIGHT {
        for x in 0..WIDTH {
            assert_eq!(image.get(x, y), Some(&(y * 10 + x)));
        }
    }
    for y in 0..HEIGHT {
        assert_eq!(image.get(10usize, y), None);
    }
    for x in 0..WIDTH {
        assert_eq!(image.get(x, HEIGHT), None);
    }
}

#[test]
fn view_physical_image() {
    const WIDTH: usize = 20;
    const HEIGHT: usize = 20;
    let mut image = PhysicalImage::new(WIDTH, HEIGHT);
    for y in 0..HEIGHT {
        for x in 0..WIDTH {
            assert_eq!(image.get_mut(x, y), Some(&mut 0));
            *image.get_mut(x, y).unwrap() = y * WIDTH + x;
        }
    }
    assert!(image.view(10, 10, 10, 10).is_some());
    assert!(image.view(10, 10, 10, 11).is_none());
    assert!(image.view(10, 10, 11, 10).is_none());
    assert!(image.view(10, 11, 10, 10).is_none());
    assert!(image.view(11, 10, 10, 10).is_none());
    let view = image.view(5usize, 5usize, WIDTH / 2, HEIGHT / 2).unwrap();
    for y in 0..HEIGHT / 2 {
        for x in 0..WIDTH / 2 {
            assert_eq!(image.get(x + 5, y + 5), view.get(x, y));
        }
    }
    for y in 0..HEIGHT / 2 {
        assert_eq!(view.get(WIDTH / 2, y), None);
    }
    for x in 0..WIDTH / 2 {
        assert_eq!(view.get(x, HEIGHT / 2), None);
    }
    let mut view = image.view_mut(5usize, 5usize, WIDTH / 2, HEIGHT / 2).unwrap();
    for y in 0..HEIGHT / 2 {
        for x in 0..WIDTH / 2 {
            assert_eq!(Some(&((y + 5) * WIDTH + x + 5)), view.get(x, y));
        }
    }
    for y in 0..HEIGHT / 2 {
        assert_eq!(view.get(WIDTH / 2, y), None);
    }
    for x in 0..WIDTH / 2 {
        assert_eq!(view.get(x, HEIGHT / 2), None);
    }
    for y in 0..HEIGHT / 2 {
        for x in 0..WIDTH / 2 {
            assert_eq!(Some(&mut ((y + 5) * WIDTH + x + 5)), view.get_mut(x, y));
        }
    }
    for y in 0..HEIGHT / 2 {
        assert_eq!(view.get_mut(WIDTH / 2, y), None);
    }
    for x in 0..WIDTH / 2 {
        assert_eq!(view.get_mut(x, HEIGHT / 2), None);
    }
}

#[test]
fn view_overhang() {
    const WIDTH: usize = 50;
    const HEIGHT: usize = 50;
    let mut image = PhysicalImage::new(WIDTH, HEIGHT);
    for y in 0..HEIGHT {
        for x in 0..WIDTH {
            *image.get_mut(x, y).unwrap() = y * WIDTH + x;
        }
    }
    let overhang = image.view_overhang(-10, -10, 20usize, 20usize);
    assert_eq!(overhang.width(), 20);
    assert_eq!(overhang.height(), 20);
    for y in 0..20 {
        for x in 0..20 {
            if x < 10 || y < 10 {
                assert_eq!(overhang.get(x, y), None);
            } else {
                assert_eq!(overhang.get(x, y), Some(&((y - 10) * WIDTH + x - 10)));
            }
        }
    }
    let overhang = image.view_overhang(40, -10, 20usize, 20usize);
    assert_eq!(overhang.width(), 20);
    assert_eq!(overhang.height(), 20);
    for y in 0..20 {
        for x in 0..20 {
            if x >= 10 || y < 10 {
                assert_eq!(overhang.get(x, y), None);
            } else {
                assert_eq!(overhang.get(x, y), Some(&((y - 10) * WIDTH + x + 40)));
            }
        }
    }
    let overhang = image.view_overhang(-10, 40, 20, 20);
    assert_eq!(overhang.width(), 20);
    assert_eq!(overhang.height(), 20);
    for y in 0..20 {
        for x in 0..20 {
            if x < 10 || y >= 10 {
                assert_eq!(overhang.get(x, y), None);
            } else {
                assert_eq!(overhang.get(x, y), Some(&((y + 40) * WIDTH + x - 10)));
            }
        }
    }
    let overhang = image.view_overhang(40, 40, 20, 20);
    assert_eq!(overhang.width(), 20);
    assert_eq!(overhang.height(), 20);
    for y in 0..20 {
        for x in 0..20 {
            if x >= 10 || y >= 10 {
                assert_eq!(overhang.get(x, y), None);
            } else {
                assert_eq!(overhang.get(x, y), Some(&((y + 40) * WIDTH + x + 40)));
            }
        }
    }
    let mut overhang = image.view_overhang_mut(-10, -10, 20usize, 20usize);
    assert_eq!(overhang.width(), 20);
    assert_eq!(overhang.height(), 20);
    for y in 0..20 {
        for x in 0..20 {
            if x < 10 || y < 10 {
                assert_eq!(overhang.get(x, y), None);
                assert_eq!(overhang.get_mut(x, y), None);
            } else {
                assert_eq!(overhang.get(x, y), Some(&((y - 10) * WIDTH + x - 10)));
                assert_eq!(overhang.get_mut(x, y), Some(&mut ((y - 10) * WIDTH + x - 10)));
            }
        }
    }
    let mut overhang = image.view_overhang_mut(40, -10, 20usize, 20usize);
    assert_eq!(overhang.width(), 20);
    assert_eq!(overhang.height(), 20);
    for y in 0..20 {
        for x in 0..20 {
            if x >= 10 || y < 10 {
                assert_eq!(overhang.get(x, y), None);
                assert_eq!(overhang.get_mut(x, y), None);
            } else {
                assert_eq!(overhang.get(x, y), Some(&((y - 10) * WIDTH + x + 40)));
                assert_eq!(overhang.get_mut(x, y), Some(&mut ((y - 10) * WIDTH + x + 40)));
            }
        }
    }
    let mut overhang = image.view_overhang_mut(-10, 40, 20, 20);
    assert_eq!(overhang.width(), 20);
    assert_eq!(overhang.height(), 20);
    for y in 0..20 {
        for x in 0..20 {
            if x < 10 || y >= 10 {
                assert_eq!(overhang.get(x, y), None);
                assert_eq!(overhang.get_mut(x, y), None);
            } else {
                assert_eq!(overhang.get(x, y), Some(&((y + 40) * WIDTH + x - 10)));
                assert_eq!(overhang.get_mut(x, y), Some(&mut ((y + 40) * WIDTH + x - 10)));
            }
        }
    }
    let mut overhang = image.view_overhang_mut(40, 40, 20, 20);
    assert_eq!(overhang.width(), 20);
    assert_eq!(overhang.height(), 20);
    for y in 0..20 {
        for x in 0..20 {
            if x >= 10 || y >= 10 {
                assert_eq!(overhang.get(x, y), None);
                assert_eq!(overhang.get_mut(x, y), None);
            } else {
                assert_eq!(overhang.get(x, y), Some(&((y + 40) * WIDTH + x + 40)));
                assert_eq!(overhang.get_mut(x, y), Some(&mut ((y + 40) * WIDTH + x + 40)));
            }
        }
    }
}

#[test]
fn sub_view_reads_parent_cells() {
    let image = numbered(50, 50);
    let view = image.view(10, 10, 30, 30).unwrap();
    assert_eq!(view.get(5, 5), Some(&(50 * 15 + 15)));
    let inner = view.view(3, 4, 20, 20).unwrap();
    for y in 0..20 {
        for x in 0..20 {
            assert_eq!(inner.get(x, y), view.get(x + 3, y + 4));
            assert_eq!(inner.get(x, y), image.get(x + 13, y + 14));
        }
    }
    assert_eq!(inner.get(20, 0), None);
    assert_eq!(inner.get(0, 20), None);
}

#[test]
fn invalid_view_is_absent() {
    let image = numbered(8, 6);
    assert!(image.view(0, 0, 8, 6).is_some());
    assert!(image.view(0, 0, 9, 6).is_none());
    assert!(image.view(8, 6, 0, 0).is_some());
    assert!(image.view(usize::MAX, 0, 2, 1).is_none());
    assert!(image.view(0, 1, 1, usize::MAX).is_none());
    assert!(!image.view_is_valid(7, 0, 2, 1));
    assert!(image.view_is_valid(7, 0, 1, 1));
}

#[test]
fn overhang_scenario() {
    let image = numbered(50, 50);
    let overhang = image.view_overhang(-10, -10, 20, 20);
    assert_eq!(overhang.valid_rect(), Rectangle { x: 10, y: 10, w: 10, h: 10 });
    for y in 0..20 {
        for x in 0..20 {
            if x < 10 || y < 10 {
                assert_eq!(overhang.get(x, y), None);
            } else {
                assert_eq!(overhang.get(x, y), image.get(x - 10, y - 10));
            }
        }
    }
}

#[test]
fn overhang_missing_buffer_is_all_absent() {
    let image = numbered(10, 10);
    let far = image.view_overhang(-30, 2, 20, 5);
    assert_eq!(far.valid_rect().w, 0);
    for y in 0..5 {
        for x in 0..20 {
            assert_eq!(far.get(x, y), None);
        }
    }
    let below = image.view_overhang(2, 40, 5, 5);
    assert_eq!(below.valid_rect().h, 0);
    assert!(below.view(0, 0, 1, 1).is_none());
    let covering = image.view_overhang(-1, -1, 12, 12);
    assert_eq!(covering.valid_rect(), Rectangle { x: 1, y: 1, w: 10, h: 10 });
    assert_eq!(covering.get(1, 1), Some(&0));
    assert_eq!(covering.get(10, 10), Some(&99));
    assert_eq!(covering.get(11, 11), None);
}

#[test]
fn mutable_overhang_write_then_read() {
    let mut image = numbered(50, 50);
    {
        let mut overhang = image.view_overhang_mut(-10, -10, 20, 20);
        for y in 0..20 {
            for x in 0..20 {
                match overhang.get_mut(x, y) {
                    Some(cell) => {
                        assert!(x >= 10 && y >= 10);
                        *cell = 1000 + y * 20 + x;
                    }
                    None => assert!(x < 10 || y < 10),
                }
            }
        }
        for y in 0..20 {
            for x in 0..20 {
                if x < 10 || y < 10 {
                    assert_eq!(overhang.get(x, y), None);
                } else {
                    assert_eq!(overhang.get(x, y), Some(&(1000 + y * 20 + x)));
                }
            }
        }
    }
    assert_eq!(image.get(0, 0), Some(&(1000 + 10 * 20 + 10)));
    assert_eq!(image.get(9, 9), Some(&(1000 + 19 * 20 + 19)));
    assert_eq!(image.get(10, 10), Some(&(50 * 10 + 10)));
}

#[test]
fn rectangle_contains_edges() {
    let r = Rectangle { x: 2, y: 3, w: 4, h: 5 };
    assert!(r.contains(2, 3));
    assert!(r.contains(5, 7));
    assert!(!r.contains(6, 3));
    assert!(!r.contains(2, 8));
    assert!(!r.contains(1, 3));
    let empty = Rectangle { x: 0, y: 0, w: 0, h: 3 };
    assert!(!empty.contains(0, 0));
}

#[test]
fn with_data_checks_length() {
    assert!(PhysicalImage::with_data(3, 2, vec![1, 2, 3, 4, 5, 6]).is_some());
    assert!(PhysicalImage::with_data(3, 2, vec![1, 2, 3, 4, 5]).is_none());
    assert!(PhysicalImage::<u8>::with_data(0, 5, vec![]).is_some());
    let image = PhysicalImage::with_data(3, 2, vec![1, 2, 3, 4, 5, 6]).unwrap();
    assert_eq!(image.get(2, 1), Some(&6));
    assert_eq!(image.into_data(), vec![1, 2, 3, 4, 5, 6]);
}

#[derive(Debug, Clone)]
struct DropCount(std::rc::Rc<std::cell::Cell<usize>>);

impl Drop for DropCount {
    fn drop(&mut self) {
        self.0.set(self.0.get() + 1);
    }
}

#[test]
fn cells_dropped_with_image() {
    let counter = std::rc::Rc::new(std::cell::Cell::new(0));
    let image = PhysicalImage::with_default(10, 10, DropCount(counter.clone()));
    assert_eq!(counter.get(), 0);
    assert_eq!(image.data().len(), 100);
    drop(image);
    assert_eq!(counter.get(), 100);
}
