use client_capture::geometry::{
    crop_client, crop_region, Border, CropError, CropRegion, CroppedImage, RawFrame, Rect,
};
use client_capture::session::{
    ClientCapture, FrameAction, ImageError, RetryAction, SessionError, BACKOFF_MS,
};

fn pixel_byte(x: u32, y: u32, k: u32) -> u8 {
    ((x * 7 + y * 13 + k * 3) % 251) as u8
}

fn patterned_frame(width: u32, height: u32) -> RawFrame {
    let mut data = Vec::new();
    for y in 0..height {
        for x in 0..width {
            for k in 0..4 {
                data.push(pixel_byte(x, y, k));
            }
        }
    }
    RawFrame { width, height, data }
}

fn filled_frame(width: u32, height: u32, value: u8) -> RawFrame {
    RawFrame { width, height, data: vec![value; (width * height * 4) as usize] }
}

fn session() -> ClientCapture {
    ClientCapture::new("Cls".to_string(), "Title".to_string(), None, None)
}

#[test]
fn cropping_matches_manual_reference() {
    let frame = patterned_frame(800, 600);
    let window = Rect::new(0, 0, 800, 600);
    let client = Rect::new(0, 30, 800, 570);
    let border = Border::new(10, 20, 10, 20);
    let img = crop_client(&frame, window, client, border).unwrap();
    assert_eq!(img.width, 780);
    assert_eq!(img.height, 530);
    let mut expected = Vec::new();
    for y in 50..580 {
        for x in 10..790 {
            for k in 0..4 {
                expected.push(pixel_byte(x, y, k));
            }
        }
    }
    assert_eq!(img.data.len(), expected.len());
    let first_diff = img.data.iter().zip(expected.iter()).position(|(a, b)| a != b);
    assert_eq!(first_diff, None);
    let dynamic = img.to_image().unwrap();
    assert_eq!(dynamic.width(), 780);
    assert_eq!(dynamic.height(), 530);
    let raw = dynamic.to_rgba8().into_raw();
    assert_eq!(raw.len(), expected.len());
    assert_eq!(raw.iter().zip(expected.iter()).position(|(a, b)| a != b), None);
}

#[test]
fn cropping_with_offset_window() {
    let frame = patterned_frame(6, 5);
    let window = Rect::new(-100, 200, 6, 5);
    let client = Rect::new(-99, 202, 4, 3);
    let region = crop_region(6, 5, window, client, Border::new(1, 1, 0, 0)).unwrap();
    assert_eq!(region, CropRegion { x: 2, y: 3, width: 3, height: 2 });
    let img = crop_client(&frame, window, client, Border::new(1, 1, 0, 0)).unwrap();
    let mut expected = Vec::new();
    for y in 3..5 {
        for x in 2..5 {
            for k in 0..4 {
                expected.push(pixel_byte(x, y, k));
            }
        }
    }
    assert_eq!(img.data, expected);
}

#[test]
fn size_mismatch_is_rejected() {
    let frame = filled_frame(801, 600, 9);
    let window = Rect::new(0, 0, 800, 600);
    let client = Rect::new(0, 30, 800, 570);
    let r = crop_client(&frame, window, client, Border::new(0, 0, 0, 0));
    assert_eq!(r.unwrap_err(), CropError::FrameSizeMismatch);
    let r = crop_region(800, 601, window, client, Border::new(0, 0, 0, 0));
    assert_eq!(r, Err(CropError::FrameSizeMismatch));
}

#[test]
fn short_buffer_is_a_size_mismatch() {
    let frame = RawFrame { width: 4, height: 4, data: vec![0; 63] };
    let window = Rect::new(0, 0, 4, 4);
    let r = crop_client(&frame, window, window, Border::new(0, 0, 0, 0));
    assert_eq!(r.unwrap_err(), CropError::FrameSizeMismatch);
}

#[test]
fn border_exceeding_client_is_rejected() {
    let frame = filled_frame(100, 100, 1);
    let window = Rect::new(0, 0, 100, 100);
    let client = Rect::new(10, 10, 50, 50);
    let r = crop_client(&frame, window, client, Border::new(30, 0, 30, 0));
    assert_eq!(r.unwrap_err(), CropError::BorderExceedsClient);
    let r = crop_region(100, 100, window, client, Border::new(0, 25, 0, 25));
    assert_eq!(r, Err(CropError::BorderExceedsClient));
    let r = crop_region(100, 100, window, client, Border::new(0, 24, 0, 25));
    assert_eq!(r, Ok(CropRegion { x: 10, y: 34, width: 50, height: 1 }));
}

#[test]
fn zero_client_area_is_rejected() {
    let window = Rect::new(0, 0, 10, 10);
    let r = crop_region(10, 10, window, Rect::new(0, 0, 0, 10), Border::new(0, 0, 0, 0));
    assert_eq!(r, Err(CropError::ZeroClientArea));
    let r = crop_region(10, 10, window, Rect::new(0, 0, 10, 0), Border::new(0, 0, 0, 0));
    assert_eq!(r, Err(CropError::ZeroClientArea));
}

#[test]
fn client_outside_window_is_rejected() {
    let window = Rect::new(0, 0, 10, 10);
    let none = Border::new(0, 0, 0, 0);
    assert_eq!(
        crop_region(10, 10, window, Rect::new(-1, 0, 5, 5), none),
        Err(CropError::ClientOutsideWindow)
    );
    assert_eq!(
        crop_region(10, 10, window, Rect::new(6, 0, 5, 5), none),
        Err(CropError::ClientOutsideWindow)
    );
    assert_eq!(
        crop_region(10, 10, window, Rect::new(0, 6, 5, 5), none),
        Err(CropError::ClientOutsideWindow)
    );
    assert_eq!(
        crop_region(10, 10, window, Rect::new(5, 5, 5, 5), none),
        Ok(CropRegion { x: 5, y: 5, width: 5, height: 5 })
    );
}

#[test]
fn mismatched_image_buffer_fails_construction() {
    let img = CroppedImage { width: 2, height: 2, data: vec![0; 15] };
    assert_eq!(img.to_image().unwrap_err(), CropError::BufferConstructionFailed);
    let img = CroppedImage { width: 2, height: 2, data: vec![0; 17] };
    assert_eq!(img.to_image().unwrap_err(), CropError::BufferConstructionFailed);
    let img = CroppedImage { width: 2, height: 2, data: vec![7; 16] };
    assert_eq!(img.to_image().unwrap().to_rgba8().into_raw(), vec![7; 16]);
    let img = CroppedImage { width: 1, height: 2, data: vec![1, 2, 3, 4, 5, 6, 7, 8] };
    let dynamic = img.to_image().unwrap();
    assert_eq!(dynamic.width(), 1);
    assert_eq!(dynamic.height(), 2);
    assert_eq!(dynamic.to_rgba8().into_raw(), vec![1, 2, 3, 4, 5, 6, 7, 8]);
}

#[test]
fn get_img_before_any_frame_has_no_image() {
    let s = session();
    assert_eq!(s.get_img(0).unwrap_err(), ImageError::NoImageYet);
}

#[test]
fn staleness_boundary() {
    let mut s = ClientCapture::new("C".to_string(), "T".to_string(), None, Some(20));
    let window = Rect::new(0, 0, 2, 2);
    let frame = filled_frame(2, 2, 5);
    assert_eq!(s.on_frame(&frame, window, window, 1000), FrameAction::Published);
    assert_eq!(s.get_img(1000).unwrap().data, vec![5; 16]);
    assert_eq!(s.get_img(1020).unwrap().data, vec![5; 16]);
    assert_eq!(s.get_img(1021).unwrap_err(), ImageError::ImageStale);
    assert_eq!(s.get_img(990).unwrap().data, vec![5; 16]);
}

#[test]
fn default_delay_is_fifty_ms() {
    let mut s = session();
    let window = Rect::new(0, 0, 1, 1);
    s.on_frame(&filled_frame(1, 1, 3), window, window, 100);
    assert!(s.get_img(100 + 50_000_000).is_ok());
    assert_eq!(s.get_img(101 + 50_000_000).unwrap_err(), ImageError::ImageStale);
    assert_eq!(s.border(), Border::new(0, 0, 0, 0));
    assert_eq!(s.window_class(), "Cls");
    assert_eq!(s.window_title(), "Title");
}

#[test]
fn latest_frame_wins() {
    let mut s = session();
    s.start().unwrap();
    let window = Rect::new(0, 0, 3, 3);
    for i in 1..=5u8 {
        let frame = filled_frame(3, 3, i);
        assert_eq!(s.on_frame(&frame, window, window, 10 * i as u64), FrameAction::Published);
    }
    let img = s.get_img(55).unwrap();
    assert_eq!(img.data, vec![5; 36]);
    assert_eq!(s.get_img(55).unwrap().data, vec![5; 36]);
}

#[test]
fn rejected_frame_keeps_previous_image() {
    let mut s = session();
    let window = Rect::new(0, 0, 3, 3);
    s.on_frame(&filled_frame(3, 3, 1), window, window, 0);
    let r = s.on_frame(&filled_frame(4, 3, 2), window, window, 1);
    assert_eq!(r, FrameAction::Rejected(CropError::FrameSizeMismatch));
    assert_eq!(s.get_img(1).unwrap().data, vec![1; 36]);
}

#[test]
fn pause_suppresses_delivery() {
    let mut s = session();
    s.start().unwrap();
    let window = Rect::new(0, 0, 2, 1);
    s.on_frame(&filled_frame(2, 1, 1), window, window, 0);
    s.pause();
    assert_eq!(s.on_frame(&filled_frame(2, 1, 2), window, window, 5), FrameAction::Skipped);
    assert_eq!(s.on_frame(&filled_frame(2, 1, 3), window, window, 6), FrameAction::Skipped);
    assert_eq!(s.get_img(6).unwrap().data, vec![1; 8]);
    s.resume();
    assert_eq!(s.on_frame(&filled_frame(2, 1, 4), window, window, 7), FrameAction::Published);
    assert_eq!(s.get_img(7).unwrap().data, vec![4; 8]);
}

#[test]
fn start_twice_is_refused() {
    let mut s = session();
    assert!(!s.is_running());
    assert_eq!(s.start(), Ok(()));
    assert!(s.is_running());
    s.pause();
    assert_eq!(s.start(), Err(SessionError::AlreadyRunning));
    assert!(s.is_running());
    assert!(s.is_paused());
    let window = Rect::new(0, 0, 1, 1);
    assert_eq!(s.on_frame(&filled_frame(1, 1, 0), window, window, 0), FrameAction::Skipped);
}

#[test]
fn stop_on_idle_session_does_nothing() {
    let mut s = session();
    s.stop();
    assert!(!s.is_stopped());
    assert!(!s.is_running());
    assert_eq!(s.next_attempt(None), RetryAction::Backoff(BACKOFF_MS));
}

#[test]
fn stop_then_restart() {
    let mut s = session();
    s.start().unwrap();
    s.stop();
    assert!(s.is_stopped());
    let window = Rect::new(0, 0, 1, 1);
    assert_eq!(s.on_frame(&filled_frame(1, 1, 0), window, window, 0), FrameAction::StopCapture);
    assert_eq!(s.next_attempt(Some(7)), RetryAction::Exit);
    assert_eq!(s.after_capture(true), RetryAction::Exit);
    s.finish();
    assert!(!s.is_running());
    assert_eq!(s.start(), Ok(()));
    assert!(!s.is_stopped());
    assert_eq!(s.on_frame(&filled_frame(1, 1, 0), window, window, 0), FrameAction::Published);
}

#[test]
fn pause_and_resume_converge_to_last_call() {
    let mut s = session();
    let window = Rect::new(0, 0, 1, 1);
    s.pause();
    s.pause();
    s.resume();
    s.pause();
    assert_eq!(s.on_frame(&filled_frame(1, 1, 0), window, window, 0), FrameAction::Skipped);
    s.resume();
    s.resume();
    assert_eq!(s.on_frame(&filled_frame(1, 1, 0), window, window, 0), FrameAction::Published);
}

#[test]
fn retry_backs_off_until_window_found() {
    let mut s = session();
    s.start().unwrap();
    for _ in 0..3 {
        assert_eq!(s.next_attempt(None), RetryAction::Backoff(500));
    }
    assert_eq!(s.next_attempt(Some(42)), RetryAction::Capture(42));
    assert_eq!(s.after_capture(true), RetryAction::Backoff(500));
    assert_eq!(s.after_capture(false), RetryAction::Resolve);
    assert!(s.is_running());
}
