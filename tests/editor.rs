use brickbreaker::editor::LevelEditor;
use brickbreaker::entities::{BlockType, Color};
use brickbreaker::menu::{handle_menu_click, Button, Menu, MenuAction, MenuState, VolumeSlider};
use brickbreaker::pattern::{create_blocks_from_pattern, PatternCell, PatternData, PatternError, EMPTY_CELL};
use brickbreaker::settings::Settings;

#[test]
fn editor_paints_one_block_per_cell() {
    let mut e = LevelEditor::new();
    e.add_block_at(45, 85);
    e.add_block_at(99, 99);
    assert_eq!(e.blocks.len(), 1);
    assert_eq!((e.blocks[0].x, e.blocks[0].y), (40, 80));
    e.selected_color_index = 7;
    e.add_block_at(101, 101);
    assert_eq!(e.blocks.len(), 2);
    assert_eq!((e.blocks[1].x, e.blocks[1].y), (100, 100));
    assert_eq!(e.blocks[1].block_type, BlockType::Explosive);
    e.add_block_at(10, 85);
    e.add_block_at(45, 300);
    assert_eq!(e.blocks.len(), 2);
}

#[test]
fn editor_erases_and_drags() {
    let mut e = LevelEditor::new();
    e.start_drag_left(45, 85);
    e.update_drag(105, 85);
    e.update_drag(165, 85);
    e.stop_drag();
    assert_eq!(e.blocks.len(), 3);
    e.update_drag(225, 85);
    assert_eq!(e.blocks.len(), 3);
    e.start_drag_right(110, 90);
    assert_eq!(e.blocks.len(), 2);
    assert!(e.blocks.iter().all(|b| b.x != 100));
    assert_eq!(e.last_drag_pos, Some((110, 90)));
}

#[test]
fn editor_clear_needs_confirmation() {
    let mut e = LevelEditor::new();
    assert!(!e.request_clear());
    e.add_block_at(45, 85);
    assert!(e.request_clear());
    assert!(e.confirm_clear);
    e.cancel_clear();
    assert!(!e.confirm_clear);
    assert_eq!(e.blocks.len(), 1);
    e.clear();
    assert!(e.blocks.is_empty());
}

#[test]
fn editor_backgrounds_wrap() {
    let mut e = LevelEditor::new();
    e.prev_background();
    assert_eq!(e.current_background, 6);
    e.next_background();
    assert_eq!(e.current_background, 1);
    e.show_message();
    let mut expired = 0;
    for _ in 0..200 {
        if e.update() {
            expired += 1;
        }
    }
    assert_eq!(expired, 1);
}

#[test]
fn editor_blocks_become_a_pattern() {
    let mut e = LevelEditor::new();
    e.selected_color_index = 3;
    e.add_block_at(45, 85);
    e.selected_color_index = 6;
    e.add_block_at(1239, 279);
    let p = e.to_pattern(String::from("mine"));
    assert_eq!(p.name, "mine");
    assert_eq!(p.grid[0][0], PatternCell { color_index: 3, block_type: BlockType::Normal });
    assert_eq!(p.grid[9][19], PatternCell { color_index: 0, block_type: BlockType::Ice });
    assert_eq!(p.grid[5][5].color_index, EMPTY_CELL);
    assert!(p.has_blocks());
    assert!(!PatternData::new(String::from("empty")).has_blocks());
    assert_eq!(PatternData::new(String::from("empty")).check_saveable(), Err(PatternError::Empty));
    assert_eq!(p.check_saveable(), Ok(()));
    let text = p.grid_text();
    assert_eq!(text.len(), 10 * 21);
    assert_eq!(&text[..21], b"3*******************\n");
    assert_eq!(&text[189..], b"*******************6\n");
}

#[test]
fn pattern_text_is_read_back() {
    let content = b"# Pattern: demo\r\n# legend\n\n0123456789\r\n*IEU\n   \n8";
    let p = PatternData::parse(String::from("demo"), &content.to_vec());
    assert_eq!(p.grid.len(), 10);
    assert_eq!(p.grid[0][0], PatternCell { color_index: 0, block_type: BlockType::Normal });
    assert_eq!(p.grid[0][5], PatternCell { color_index: 5, block_type: BlockType::Normal });
    assert_eq!(p.grid[0][6].block_type, BlockType::Ice);
    assert_eq!(p.grid[0][7].block_type, BlockType::Explosive);
    assert_eq!(p.grid[0][8].block_type, BlockType::Undestroyable);
    assert_eq!(p.grid[0][9].color_index, EMPTY_CELL);
    assert_eq!(p.grid[0][10].color_index, EMPTY_CELL);
    assert_eq!(p.grid[1][0].color_index, EMPTY_CELL);
    assert_eq!(p.grid[1][1].block_type, BlockType::Ice);
    assert_eq!(p.grid[1][3].block_type, BlockType::Undestroyable);
    assert_eq!(p.grid[2][0].block_type, BlockType::Undestroyable);
    assert_eq!(p.grid[3][0].color_index, EMPTY_CELL);
    let blocks = create_blocks_from_pattern(&p);
    assert_eq!(blocks.len(), 6 + 3 + 3 + 1);
    assert_eq!((blocks[0].x, blocks[0].y), (40, 80));
    let ice = blocks.iter().find(|b| b.block_type == BlockType::Ice).unwrap();
    assert_eq!(ice.health, 2);
}

#[test]
fn pattern_round_trip() {
    let mut e = LevelEditor::new();
    for (i, x) in [45, 105, 165, 225].iter().enumerate() {
        e.selected_color_index = i * 2;
        e.add_block_at(*x, 125);
    }
    let p = e.to_pattern(String::from("round"));
    let q = PatternData::parse(String::from("round"), &p.grid_text());
    assert_eq!(p.grid, q.grid);
}

#[test]
fn menu_routes_clicks() {
    let mut m = Menu::new(1280, 720);
    // buttons sit at x 540..740; "New Game" at y 235..275
    assert_eq!(handle_menu_click(&m, 600, 250), MenuAction::NewGame);
    m.set_game_started(true);
    assert_eq!(m.resume_button.label, "Resume");
    assert_eq!(handle_menu_click(&m, 600, 250), MenuAction::Resume);
    assert_eq!(handle_menu_click(&m, 600, 290), MenuAction::Restart);
    assert_eq!(handle_menu_click(&m, 600, 490), MenuAction::Quit);
    assert_eq!(handle_menu_click(&m, 10, 10), MenuAction::NoAction);
    m.state = MenuState::Settings;
    assert_eq!(handle_menu_click(&m, 600, 515), MenuAction::SelectResolution(0));
    assert_eq!(handle_menu_click(&m, 600, 655), MenuAction::SelectResolution(4));
    assert_eq!(handle_menu_click(&m, 600, 770), MenuAction::CloseSettings);
    m.start_resolution_confirmation((1280, 720));
    assert_eq!(handle_menu_click(&m, 600, 515), MenuAction::NoAction);
    // "Keep" sits at x 480..580, y 710..745
    assert_eq!(handle_menu_click(&m, 500, 720), MenuAction::ConfirmResolution);
}

#[test]
fn menu_resolution_confirmation_times_out() {
    let mut m = Menu::new(1280, 720);
    m.set_resolution(1920, 1080);
    assert_eq!(m.selected_resolution_index, 3);
    assert_eq!(m.get_selected_resolution(), (1920, 1080));
    m.set_resolution(1000, 1000);
    assert_eq!(m.selected_resolution_index, 3);
    m.start_resolution_confirmation((1280, 720));
    let mut ticks = 0;
    while !m.update_resolution_timer() {
        ticks += 1;
    }
    assert_eq!(ticks, 300);
    assert_eq!(m.cancel_resolution(), Some((1280, 720)));
    assert_eq!(m.resolution_confirm_timer, None);
}

#[test]
fn slider_follows_the_mouse() {
    let mut s = VolumeSlider::new(100, 100, 200);
    s.update(200, 105, true);
    assert!(s.dragging);
    assert_eq!(s.get_value(), 64);
    s.update(400, 500, true);
    assert_eq!(s.get_value(), 128);
    s.update(50, 500, true);
    assert_eq!(s.get_value(), 0);
    s.update(150, 105, false);
    assert!(!s.dragging);
    assert_eq!(s.get_value(), 0);
    s.set_value(500);
    assert_eq!(s.get_value(), 128);
    let b = Button::new(0, 0, 10, 10, "x");
    assert!(b.is_clicked(0, 0));
    assert!(!b.is_clicked(10, 5));
}

#[test]
fn default_settings() {
    let s = Settings::default();
    assert_eq!((s.window_width, s.window_height), (1280, 720));
    assert_eq!((s.music_volume, s.sfx_volume), (64, 64));
    assert!(!s.fullscreen && !s.music_muted && !s.sfx_muted && !s.gravity_mode);
    let c = Color::new(1, 2, 3);
    assert_eq!((c.r, c.g, c.b), (1, 2, 3));
}

#[test]
fn editor_loads_a_pattern() {
    let p = PatternData::parse(String::from("two"), &b"7*8\n".to_vec());
    let mut e = LevelEditor::new();
    e.add_block_at(600, 200);
    e.load_pattern(&p);
    assert_eq!(e.blocks.len(), 2);
    assert_eq!(e.blocks[0].block_type, BlockType::Explosive);
    assert_eq!((e.blocks[1].x, e.blocks[1].y), (160, 80));
}
