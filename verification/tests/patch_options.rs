use randomprime::patch_config::{
    ends_with, item_loss_items, starting_items, ArtifactHintBehavior, Beam, ConfigError,
    CutsceneMode, DefaultGameOptions, DoorConfig, DoorDestination, GameBanner, GameConfig,
    IsoFormat, Items, MapState, PatchProfile, Preferences, SuitColors, Visor,
    DEFAULT_ITEMS, VANILLA_STARTING_ITEMS,
};

fn text(s: &str) -> Option<String> {
    Some(s.to_string())
}

#[test]
fn nothing_given_gives_the_defaults() {
    let files = PatchProfile::default().files();
    assert_eq!(files.input_iso, "prime.iso");
    assert_eq!(files.input_iso_file, "prime.iso");
    assert_eq!(files.output_iso, "prime_out.iso");
    assert_eq!(files.iso_format, IsoFormat::Iso);
    let settings = PatchProfile::default().parse().unwrap();
    assert_eq!(settings.extern_assets_dir, None);
    assert_eq!(settings.seed, 123);
    assert!(!settings.force_vanilla_layout);
    assert_eq!(settings.qol_cutscenes, CutsceneMode::Original);
    assert!(settings.qol_game_breaking);
    assert!(settings.qol_cosmetic);
    assert!(settings.qol_pickup_scans);
    assert!(settings.phazon_elite_without_dynamo);
    assert!(settings.main_plaza_door);
    assert!(settings.backwards_labs);
    assert!(settings.backwards_frigate);
    assert!(settings.backwards_upper_mines);
    assert!(!settings.backwards_lower_mines);
    assert!(!settings.patch_power_conduits);
    assert!(!settings.remove_mine_security_station_locks);
    assert_eq!(settings.starting_room, "Tallon:Landing Site");
    assert_eq!(settings.starting_memo, None);
    assert!(!settings.spring_ball);
    assert!(!settings.warp_to_start);
    assert!(settings.automatic_crash_screen);
    assert_eq!(settings.etank_capacity, 100);
    assert!(!settings.shuffle_pickup_position);
    assert!(!settings.shuffle_pickup_pos_all_rooms);
    assert!(!settings.remove_vanilla_blast_shields);
    assert!(!settings.nonvaria_heat_damage);
    assert!(!settings.staggered_suit_damage);
    assert_eq!(settings.map_default_state, MapState::Default);
    assert!(!settings.auto_enabled_elevators);
    assert!(!settings.multiworld_dol_patches);
    assert_eq!(settings.update_hint_state_replacement, None);
    assert!(!settings.quiet);
    assert!(settings.disable_item_loss);
    assert_eq!(settings.starting_visor, Visor::Combat);
    assert_eq!(settings.starting_beam, Beam::Power);
    assert_eq!(settings.artifact_hint_behavior, ArtifactHintBehavior::All);
    assert_eq!(settings.trilogy_disc_path, None);
    assert!(!settings.skip_splash_screens);
    assert!(settings.default_game_options.is_none());
    assert!(settings.suit_colors.is_none());
    assert!(!settings.quickplay);
    assert!(!settings.quickpatch);
    assert_eq!(settings.game_banner.game_name, None);
    assert_eq!(settings.game_banner.description, None);
    assert_eq!(settings.comment, "");
    assert_eq!(settings.main_menu_message, "randomprime");
    assert_eq!(settings.credits_string, None);
}

#[test]
fn what_was_given_stands() {
    let mut given = PatchProfile::default();
    given.input_iso = text("  in.iso ");
    given.output_iso = text("out.ciso");
    given.extern_assets_dir = text("assets");
    given.seed = Some(7);
    given.preferences.qol_game_breaking = Some(false);
    given.preferences.qol_cosmetic = Some(false);
    given.preferences.qol_pickup_scans = Some(false);
    given.preferences.automatic_crash_screen = Some(false);
    given.preferences.quiet = Some(true);
    given.preferences.skip_splash_screens = Some(true);
    given.preferences.trilogy_disc_path = text("trilogy.iso");
    given.preferences.suit_colors =
        Some(SuitColors { power_deg: Some(-5), ..SuitColors::default() });
    given.preferences.default_game_options =
        Some(DefaultGameOptions { sfx_volume: Some(3), ..DefaultGameOptions::default() });
    given.game_config.starting_room = text("Chozo:Ruined Fountain");
    given.game_config.starting_memo = text("hello");
    given.game_config.spring_ball = Some(true);
    given.game_config.warp_to_start = Some(true);
    given.game_config.etank_capacity = Some(50);
    given.game_config.backwards_lower_mines = Some(true);
    given.game_config.backwards_labs = Some(false);
    given.game_config.disable_item_loss = Some(false);
    given.game_config.update_hint_state_replacement = Some(vec![1, 2, 3]);
    given.game_config.game_banner =
        Some(GameBanner { developer: text("someone"), ..GameBanner::default() });
    given.game_config.comment = text("a comment");
    given.game_config.main_menu_message = text("a message");
    given.game_config.credits_string = text("credits");
    let files = given.files();
    assert_eq!(files.input_iso, "  in.iso ");
    assert_eq!(files.input_iso_file, "in.iso");
    assert_eq!(files.output_iso, "out.ciso");
    assert_eq!(files.iso_format, IsoFormat::Ciso);
    let settings = given.parse().unwrap();
    assert_eq!(settings.extern_assets_dir, text("assets"));
    assert_eq!(settings.seed, 7);
    assert!(!settings.qol_game_breaking);
    assert!(!settings.qol_cosmetic);
    assert!(!settings.qol_pickup_scans);
    assert!(!settings.automatic_crash_screen);
    assert!(settings.quiet);
    assert!(settings.skip_splash_screens);
    assert_eq!(settings.trilogy_disc_path, text("trilogy.iso"));
    assert_eq!(settings.suit_colors.unwrap().power_deg, Some(-5));
    assert_eq!(settings.default_game_options.unwrap().sfx_volume, Some(3));
    assert_eq!(settings.starting_room, "Chozo:Ruined Fountain");
    assert_eq!(settings.starting_memo, text("hello"));
    assert!(settings.spring_ball);
    assert!(settings.warp_to_start);
    assert_eq!(settings.etank_capacity, 50);
    assert!(settings.backwards_lower_mines);
    assert!(!settings.backwards_labs);
    assert!(!settings.disable_item_loss);
    assert_eq!(settings.update_hint_state_replacement, Some(vec![1, 2, 3]));
    assert_eq!(settings.game_banner.developer, text("someone"));
    assert_eq!(settings.game_banner.game_name, None);
    assert_eq!(settings.comment, "a comment");
    assert_eq!(settings.main_menu_message, "a message");
    assert_eq!(settings.credits_string, text("credits"));
}

#[test]
fn vanilla_layout_overrides_what_was_given() {
    let mut given = PatchProfile::default();
    given.force_vanilla_layout = Some(true);
    given.preferences.qol_game_breaking = Some(false);
    given.preferences.qol_cosmetic = Some(true);
    given.preferences.qol_pickup_scans = Some(true);
    given.game_config.starting_room = text("Chozo:Ruined Fountain");
    given.game_config.spring_ball = Some(true);
    given.game_config.warp_to_start = Some(true);
    given.game_config.main_menu_message = text("a message");
    given.game_config.credits_string = text("credits");
    given.game_config.etank_capacity = Some(50);
    let settings = given.parse().unwrap();
    assert!(settings.force_vanilla_layout);
    assert!(settings.qol_game_breaking);
    assert!(!settings.qol_cosmetic);
    assert!(!settings.qol_pickup_scans);
    assert_eq!(settings.starting_room, "Frigate:Exterior Docking Hangar");
    assert!(!settings.spring_ball);
    assert!(!settings.warp_to_start);
    assert_eq!(settings.main_menu_message, "");
    assert_eq!(settings.credits_string, text(""));
    // what the layout does not touch stands
    assert_eq!(settings.etank_capacity, 50);
}

#[test]
fn names_are_trimmed_and_lowered() {
    let mut given = PatchProfile::default();
    given.preferences.artifact_hint_behavior = text("  NONE\t");
    given.preferences.map_default_state = text(" Visited ");
    given.preferences.qol_cutscenes = text("\nCompetitive ");
    given.game_config.starting_visor = text(" XRay");
    given.game_config.starting_beam = text("PLASMA ");
    let settings = given.parse().unwrap();
    assert_eq!(settings.artifact_hint_behavior, ArtifactHintBehavior::NoHints);
    assert_eq!(settings.map_default_state, MapState::Visited);
    assert_eq!(settings.qol_cutscenes, CutsceneMode::Competitive);
    assert_eq!(settings.starting_visor, Visor::XRay);
    assert_eq!(settings.starting_beam, Beam::Plasma);
}

#[test]
fn first_unknown_name_is_the_error() {
    let mut given = PatchProfile::default();
    given.preferences.artifact_hint_behavior = text(" Some ");
    given.preferences.map_default_state = text("hidden");
    let error = given.parse().unwrap_err();
    assert!(matches!(&error, ConfigError::ArtifactHintBehavior(name) if name == "some"));
    assert_eq!(error.message(), "Unhandled artifact hint behavior - 'some'");

    let mut given = PatchProfile::default();
    given.preferences.map_default_state = text(" Hidden");
    given.preferences.qol_cutscenes = text("none");
    let error = given.parse().unwrap_err();
    assert!(matches!(&error, ConfigError::MapDefaultState(name) if name == "hidden"));
    assert_eq!(error.message(), "Unhandled map default state - 'hidden'");

    let mut given = PatchProfile::default();
    given.preferences.qol_cutscenes = text(" Skip All");
    given.game_config.starting_visor = text("x-ray");
    let error = given.parse().unwrap_err();
    assert!(matches!(&error, ConfigError::CutsceneMode(name) if name == " Skip All"));
    assert_eq!(error.message(), "Unknown cutscene mode  Skip All");

    let mut given = PatchProfile::default();
    given.game_config.starting_visor = text("X-Ray");
    given.game_config.starting_beam = text("phazon");
    let error = given.parse().unwrap_err();
    assert!(matches!(&error, ConfigError::StartingVisor(name) if name == "X-Ray"));
    assert_eq!(error.message(), "Unknown starting visor X-Ray");

    let mut given = PatchProfile::default();
    given.game_config.starting_beam = text("Phazon");
    let error = given.parse().unwrap_err();
    assert!(matches!(&error, ConfigError::StartingBeam(name) if name == "Phazon"));
    assert_eq!(error.message(), "Unknown starting beam Phazon");
}

#[test]
fn names_stand_for_what_they_say() {
    assert_eq!(ArtifactHintBehavior::from_name("all"), Some(ArtifactHintBehavior::All));
    assert_eq!(ArtifactHintBehavior::from_name("none"), Some(ArtifactHintBehavior::NoHints));
    assert_eq!(ArtifactHintBehavior::from_name("default"), Some(ArtifactHintBehavior::Default));
    assert_eq!(ArtifactHintBehavior::from_name("All"), None);
    assert_eq!(MapState::from_name("default"), Some(MapState::Default));
    assert_eq!(MapState::from_name("visited"), Some(MapState::Visited));
    assert_eq!(MapState::from_name("visible"), Some(MapState::Visible));
    assert_eq!(MapState::from_name(""), None);
    assert_eq!(CutsceneMode::from_name("original"), Some(CutsceneMode::Original));
    assert_eq!(CutsceneMode::from_name("competitive"), Some(CutsceneMode::Competitive));
    assert_eq!(CutsceneMode::from_name("minor"), Some(CutsceneMode::Minor));
    assert_eq!(CutsceneMode::from_name("major"), Some(CutsceneMode::Major));
    assert_eq!(CutsceneMode::from_name("majors"), None);
    assert_eq!(Visor::from_name("combat"), Some(Visor::Combat));
    assert_eq!(Visor::from_name("scan"), Some(Visor::Scan));
    assert_eq!(Visor::from_name("thermal"), Some(Visor::Thermal));
    assert_eq!(Visor::from_name("xray"), Some(Visor::XRay));
    assert_eq!(Visor::from_name("x ray"), None);
    assert_eq!(Beam::from_name("power"), Some(Beam::Power));
    assert_eq!(Beam::from_name("ice"), Some(Beam::Ice));
    assert_eq!(Beam::from_name("wave"), Some(Beam::Wave));
    assert_eq!(Beam::from_name("plasma"), Some(Beam::Plasma));
    assert_eq!(Beam::from_name(" ice"), None);
}

#[test]
fn output_name_decides_the_format() {
    assert_eq!(IsoFormat::of_path("game.gcz"), IsoFormat::Gcz);
    assert_eq!(IsoFormat::of_path("game.ciso"), IsoFormat::Ciso);
    assert_eq!(IsoFormat::of_path("game.iso"), IsoFormat::Iso);
    assert_eq!(IsoFormat::of_path("game.GCZ"), IsoFormat::Iso);
    assert_eq!(IsoFormat::of_path(".gcz"), IsoFormat::Gcz);
    assert_eq!(IsoFormat::of_path("gcz"), IsoFormat::Iso);
    assert_eq!(IsoFormat::of_path(""), IsoFormat::Iso);
    assert_eq!(IsoFormat::of_path("gr\u{fc}n.ciso"), IsoFormat::Ciso);
    assert!(ends_with("abc", ""));
    assert!(ends_with("abc", "abc"));
    assert!(!ends_with("bc", "abc"));
    assert!(!ends_with("abd", "bc"));
}

#[test]
fn map_state_shows_its_name() {
    assert_eq!(MapState::Default.to_string(), "Default");
    assert_eq!(MapState::Visible.to_string(), "Visible");
    assert_eq!(MapState::Visited.to_string(), "Visited");
}

#[test]
fn items_come_from_what_was_given_or_from_a_code() {
    assert_eq!(VANILLA_STARTING_ITEMS, 2188378143);
    assert_eq!(DEFAULT_ITEMS, 1);
    assert!(matches!(starting_items(true, Some("set")), Items::FromCode(2188378143)));
    assert!(matches!(starting_items::<&str>(true, None), Items::FromCode(2188378143)));
    assert!(matches!(starting_items(false, Some("set")), Items::Given("set")));
    assert!(matches!(starting_items::<&str>(false, None), Items::FromCode(1)));
    assert!(matches!(item_loss_items(Some(5u8)), Items::Given(5)));
    assert!(matches!(item_loss_items::<u8>(None), Items::FromCode(1)));
}

#[test]
fn plain_records_start_empty() {
    let banner = GameBanner::default();
    assert!(banner.game_name.is_none() && banner.game_name_full.is_none());
    assert!(banner.developer.is_none() && banner.developer_full.is_none());
    assert!(banner.description.is_none());
    let destination = DoorDestination::default();
    assert_eq!(destination.room_name, "");
    assert_eq!(destination.dock_num, 0);
    let door = DoorConfig::default();
    assert!(door.shield_type.is_none() && door.blast_shield_type.is_none());
    assert!(door.destination.is_none());
    let colors = SuitColors::default();
    assert_eq!(
        (colors.power_deg, colors.varia_deg, colors.gravity_deg, colors.phazon_deg),
        (None, None, None, None)
    );
    let options = DefaultGameOptions::default();
    assert!(options.screen_brightness.is_none() && options.swap_beam_controls.is_none());
    let preferences = Preferences::default();
    assert!(preferences.qol_cutscenes.is_none() && preferences.quiet.is_none());
    let game = GameConfig::default();
    assert!(game.starting_room.is_none() && game.credits_string.is_none());
}
