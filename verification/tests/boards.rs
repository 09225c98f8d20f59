use microclaw::boards::{waveshare_1_85c_v3, GpioPin};
use microclaw::display::{DISPLAY_HEIGHT, DISPLAY_WIDTH};
use microclaw::drivers::{DisplayDriver, DisplayRotation, DriverError, HostDisplayDriver, Rect};

#[test]
fn waveshare_board_matches_the_canvas() {
    let board = waveshare_1_85c_v3();
    assert_eq!(board.name, "Waveshare ESP32-S3-Touch-LCD 1.85C");
    assert_eq!(board.display.width, DISPLAY_WIDTH);
    assert_eq!(board.display.height, DISPLAY_HEIGHT);
    assert_eq!(board.rotation, DisplayRotation::Portrait);
    assert_eq!(board.display.qspi_cs, GpioPin(21));
    assert_eq!(board.display.backlight, GpioPin(5));
    assert_eq!(board.display.reset, None);
    assert_eq!(board.touch.i2c_sda, GpioPin(11));
    assert_eq!(board.touch.irq, GpioPin(4));
    assert_eq!(board.audio.i2s_dout, GpioPin(17));
    assert_eq!(board.audio.imu_scl, board.touch.i2c_scl);
    assert_eq!(board.display.qspi_sclk, GpioPin(42));
    assert_eq!(board.display.qspi_sdo, GpioPin(46));
    assert_eq!(board.display.qspi_sdi, GpioPin(45));
    assert_eq!(board.touch.i2c_scl, GpioPin(10));
    assert_eq!(board.touch.reset, None);
    assert_eq!(board.audio.i2s_bclk, GpioPin(19));
    assert_eq!(board.audio.i2s_ws, GpioPin(20));
    assert_eq!(board.audio.i2s_sd, GpioPin(18));
    assert_eq!(board.audio.imu_sda, GpioPin(11));
}

#[test]
fn host_display_counts_regions_on_the_panel() {
    let mut display = HostDisplayDriver::new(360, 240);
    assert_eq!(display.width(), 360);
    assert_eq!(display.height(), 240);
    let whole = Rect { x: 0, y: 0, w: 360, h: 240 };
    assert!(!display.is_ready());
    assert_eq!(display.brightness(), 0);
    assert_eq!(display.flushes(), 0);
    assert_eq!(display.flush_region(whole, &[]), Err(DriverError::NotReady));
    assert_eq!(display.flushes(), 0);
    assert_eq!(display.init(), Ok(()));
    assert!(display.is_ready());
    assert_eq!(display.set_brightness(200), Ok(()));
    assert_eq!(display.brightness(), 200);
    assert!(display.is_ready());
    assert_eq!(display.flushes(), 0);
    assert_eq!(display.flush_region(whole, &[]), Ok(()));
    assert_eq!(
        display.flush_region(Rect { x: 1, y: 0, w: 360, h: 240 }, &[]),
        Err(DriverError::OutOfBounds)
    );
    assert_eq!(
        display.flush_region(Rect { x: 0, y: 1, w: 360, h: 240 }, &[]),
        Err(DriverError::OutOfBounds)
    );
    assert_eq!(
        display.flush_region(Rect { x: 65535, y: 0, w: 65535, h: 1 }, &[]),
        Err(DriverError::OutOfBounds)
    );
    assert_eq!(display.flush_region(Rect { x: 359, y: 239, w: 1, h: 1 }, &[1, 2, 3]), Ok(()));
    assert_eq!(display.flushes(), 2);
}
