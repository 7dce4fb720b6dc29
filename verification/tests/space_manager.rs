use gba_rom::error::RomError;
use gba_rom::space_manager::SpaceManager;

fn image_with_run(len: usize, run_at: usize, run_len: usize) -> Vec<u8> {
    let mut data = vec![0u8; len];
    for byte in data.iter_mut().skip(run_at).take(run_len) {
        *byte = 0xFF;
    }
    data
}

#[test]
fn finds_the_run_where_it_starts() {
    let data = image_with_run(32, 16, 8);
    assert_eq!(SpaceManager::find_free_space(&data, 4, 0), Ok(16));
    assert_eq!(SpaceManager::find_free_space(&data, 8, 0), Ok(16));
    assert_eq!(SpaceManager::find_free_space(&data, 1, 0), Ok(16));
}

#[test]
fn run_that_is_too_short_is_not_found() {
    let data = image_with_run(32, 16, 8);
    assert_eq!(SpaceManager::find_free_space(&data, 9, 0), Err(RomError::OutOfBounds));
}

#[test]
fn first_of_two_runs_wins() {
    let mut data = image_with_run(64, 8, 4);
    for byte in data.iter_mut().skip(20).take(10) {
        *byte = 0xFF;
    }
    assert_eq!(SpaceManager::find_free_space(&data, 4, 0), Ok(8));
    assert_eq!(SpaceManager::find_free_space(&data, 5, 0), Ok(20));
    assert_eq!(SpaceManager::find_free_space(&data, 10, 0), Ok(20));
    assert_eq!(SpaceManager::find_free_space(&data, 11, 0), Err(RomError::OutOfBounds));
}

#[test]
fn run_need_not_start_at_a_multiple_of_four() {
    let data = image_with_run(32, 13, 6);
    assert_eq!(SpaceManager::find_free_space(&data, 6, 0), Ok(13));
}

#[test]
fn search_starts_at_the_next_multiple_of_four() {
    let data = vec![0, 0xFF, 0xFF, 0xFF, 0, 0, 0, 0, 0xFF, 0xFF];
    assert_eq!(SpaceManager::find_free_space(&data, 2, 1), Ok(8));
    assert_eq!(SpaceManager::find_free_space(&data, 2, 0), Ok(1));
    assert_eq!(SpaceManager::find_free_space(&data, 2, 4), Ok(8));
    assert_eq!(SpaceManager::find_free_space(&data, 2, 8), Ok(8));
}

#[test]
fn run_that_began_before_the_search_counts_from_the_search_start() {
    let data = vec![0xFF; 12];
    assert_eq!(SpaceManager::find_free_space(&data, 4, 5), Ok(8));
    assert_eq!(SpaceManager::find_free_space(&data, 5, 5), Err(RomError::OutOfBounds));
}

#[test]
fn an_earlier_run_is_found_before_a_later_one() {
    let data = vec![0xFF; 16];
    // a run of two free bytes also starts at 4, but the first one is at 0
    assert_eq!(SpaceManager::find_free_space(&data, 2, 0), Ok(0));
}

#[test]
fn search_start_at_or_past_the_end_fails() {
    let data = vec![0xFF; 8];
    assert_eq!(SpaceManager::find_free_space(&data, 1, 8), Err(RomError::OutOfBounds));
    assert_eq!(SpaceManager::find_free_space(&data, 1, 9), Err(RomError::OutOfBounds));
    assert_eq!(SpaceManager::find_free_space(&data, 1, usize::MAX), Err(RomError::OutOfBounds));
    assert_eq!(SpaceManager::find_free_space(&[], 1, 0), Err(RomError::OutOfBounds));
}

#[test]
fn aligned_start_past_the_end_fails() {
    let data = vec![0xFF; 6];
    assert_eq!(SpaceManager::find_free_space(&data, 1, 5), Err(RomError::OutOfBounds));
    assert_eq!(SpaceManager::find_free_space(&data, 1, 4), Ok(4));
}

#[test]
fn run_at_the_very_end_is_found() {
    let data = image_with_run(24, 20, 4);
    assert_eq!(SpaceManager::find_free_space(&data, 4, 3), Ok(20));
}

#[test]
fn no_free_byte_at_all_fails() {
    let data = vec![0u8; 64];
    assert_eq!(SpaceManager::find_free_space(&data, 1, 0), Err(RomError::OutOfBounds));
}

#[test]
fn request_for_no_bytes_is_served_like_one_byte() {
    let data = vec![0, 0, 0, 0, 0, 0xFF];
    assert_eq!(SpaceManager::find_free_space(&data, 0, 0), Ok(5));
    assert_eq!(SpaceManager::find_free_space(&data, 1, 0), Ok(5));
    let none = vec![0u8; 6];
    assert_eq!(SpaceManager::find_free_space(&none, 0, 0), Err(RomError::OutOfBounds));
}

#[test]
fn whole_image_as_one_run() {
    let data = vec![0xFF; 40];
    assert_eq!(SpaceManager::find_free_space(&data, 40, 0), Ok(0));
    assert_eq!(SpaceManager::find_free_space(&data, 41, 0), Err(RomError::OutOfBounds));
    assert_eq!(SpaceManager::find_free_space(&data, usize::MAX, 0), Err(RomError::OutOfBounds));
}
