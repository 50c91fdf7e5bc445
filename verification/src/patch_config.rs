//! The options of the patcher: what can be chosen, and how the choices that
//! were given are completed.

use vstd::prelude::*;
use vstd::string::StrSliceExecFns;
use vstd::string::StringExecFns;

verus! {

/// What a text is without the white space at its two ends, as `str::trim`
/// gives it.
pub uninterp spec fn trimmed(text: Seq<char>) -> Seq<char>;

/// What a text is in lower case, as `str::to_lowercase` gives it.
pub uninterp spec fn lowercased(text: Seq<char>) -> Seq<char>;

/// Calls `str::trim`, which returns the text without leading and trailing
/// white space. What counts as white space is Unicode's to say; the contract
/// only gives the result its name.
#[verifier::external_body]
fn trim(text: &str) -> (r: &str)
    ensures
        r@ == trimmed(text@),
{
    text.trim()
}

/// Calls `str::to_lowercase`, which returns the text in lower case. Which
/// letter is the lower case of which is Unicode's to say; the contract only
/// gives the result its name.
#[verifier::external_body]
fn to_lowercase(text: &str) -> (r: String)
    ensures
        r@ == lowercased(text@),
{
    text.to_lowercase()
}

/// Whether two texts are the same.
fn same_text(left: &str, right: &str) -> (same: bool)
    ensures
        same == (left@ == right@),
{
    left.to_owned() == right.to_owned()
}

/// Whether `text` ends in `suffix`.
pub open spec fn is_suffix(text: Seq<char>, suffix: Seq<char>) -> bool {
    suffix.len() <= text.len() && text.subrange(text.len() - suffix.len(), text.len() as int)
        == suffix
}

/// Whether `text` ends in `suffix`.
pub fn ends_with(text: &str, suffix: &str) -> (r: bool)
    ensures
        r == is_suffix(text@, suffix@),
{
    let length: usize = text.unicode_len();
    let wanted: usize = suffix.unicode_len();
    if wanted > length {
        false
    } else {
        same_text(text.substring_char(length - wanted, length), suffix)
    }
}

/// The format of the image that is written.
#[derive(Clone, Copy, Debug, PartialEq, Eq, Structural)]
pub enum IsoFormat {
    Iso,
    Gcz,
    Ciso,
}

impl IsoFormat {
    /// The format that the name of an output file asks for.
    pub open spec fn spec_of_path(path: Seq<char>) -> IsoFormat {
        if is_suffix(path, ".gcz"@) {
            IsoFormat::Gcz
        } else if is_suffix(path, ".ciso"@) {
            IsoFormat::Ciso
        } else {
            IsoFormat::Iso
        }
    }

    /// The format that the name of an output file asks for: by its
    /// extension a compressed or a compact image, else a plain one.
    pub fn of_path(path: &str) -> (format: IsoFormat)
        ensures
            format == Self::spec_of_path(path@),
    {
        if ends_with(path, ".gcz") {
            IsoFormat::Gcz
        } else if ends_with(path, ".ciso") {
            IsoFormat::Ciso
        } else {
            IsoFormat::Iso
        }
    }
}

/// Which of the hints to the artifacts are given.
#[derive(Clone, Copy, Debug, PartialEq, Eq, Structural)]
pub enum ArtifactHintBehavior {
    Default,
    /// No hint is given.
    NoHints,
    All,
}

impl ArtifactHintBehavior {
    /// The behavior that a name in lower case stands for.
    pub open spec fn spec_from_name(name: Seq<char>) -> Option<ArtifactHintBehavior> {
        if name == "all"@ {
            Some(ArtifactHintBehavior::All)
        } else if name == "none"@ {
            Some(ArtifactHintBehavior::NoHints)
        } else if name == "default"@ {
            Some(ArtifactHintBehavior::Default)
        } else {
            None
        }
    }

    /// The behavior that a name in lower case stands for.
    pub fn from_name(name: &str) -> (r: Option<ArtifactHintBehavior>)
        ensures
            r == Self::spec_from_name(name@),
    {
        if same_text(name, "all") {
            Some(ArtifactHintBehavior::All)
        } else if same_text(name, "none") {
            Some(ArtifactHintBehavior::NoHints)
        } else if same_text(name, "default") {
            Some(ArtifactHintBehavior::Default)
        } else {
            None
        }
    }
}

/// How much of the map is shown from the start.
#[derive(Clone, Copy, Debug, PartialEq, Eq, Structural)]
pub enum MapState {
    Default,
    Visible,
    Visited,
}

impl MapState {
    /// The state that a name in lower case stands for.
    pub open spec fn spec_from_name(name: Seq<char>) -> Option<MapState> {
        if name == "default"@ {
            Some(MapState::Default)
        } else if name == "visited"@ {
            Some(MapState::Visited)
        } else if name == "visible"@ {
            Some(MapState::Visible)
        } else {
            None
        }
    }

    /// The state that a name in lower case stands for.
    pub fn from_name(name: &str) -> (r: Option<MapState>)
        ensures
            r == Self::spec_from_name(name@),
    {
        if same_text(name, "default") {
            Some(MapState::Default)
        } else if same_text(name, "visited") {
            Some(MapState::Visited)
        } else if same_text(name, "visible") {
            Some(MapState::Visible)
        } else {
            None
        }
    }

    /// The name of the state, as it is shown.
    pub open spec fn spec_to_string(&self) -> Seq<char> {
        match *self {
            MapState::Default => "Default"@,
            MapState::Visible => "Visible"@,
            MapState::Visited => "Visited"@,
        }
    }

    /// The name of the state, as it is shown.
    pub fn to_string(&self) -> (name: String)
        ensures
            name@ == self.spec_to_string(),
    {
        match self {
            MapState::Default => "Default".to_owned(),
            MapState::Visible => "Visible".to_owned(),
            MapState::Visited => "Visited".to_owned(),
        }
    }
}

/// How many of the cutscenes are cut.
#[derive(Clone, Copy, Debug, PartialEq, Eq, Structural)]
pub enum CutsceneMode {
    Original,
    Competitive,
    Minor,
    Major,
}

impl CutsceneMode {
    /// The mode that a name in lower case stands for.
    pub open spec fn spec_from_name(name: Seq<char>) -> Option<CutsceneMode> {
        if name == "original"@ {
            Some(CutsceneMode::Original)
        } else if name == "competitive"@ {
            Some(CutsceneMode::Competitive)
        } else if name == "minor"@ {
            Some(CutsceneMode::Minor)
        } else if name == "major"@ {
            Some(CutsceneMode::Major)
        } else {
            None
        }
    }

    /// The mode that a name in lower case stands for.
    pub fn from_name(name: &str) -> (r: Option<CutsceneMode>)
        ensures
            r == Self::spec_from_name(name@),
    {
        if same_text(name, "original") {
            Some(CutsceneMode::Original)
        } else if same_text(name, "competitive") {
            Some(CutsceneMode::Competitive)
        } else if same_text(name, "minor") {
            Some(CutsceneMode::Minor)
        } else if same_text(name, "major") {
            Some(CutsceneMode::Major)
        } else {
            None
        }
    }
}

/// A visor of the suit.
#[derive(Clone, Copy, Debug, PartialEq, Eq, Structural)]
pub enum Visor {
    Combat,
    XRay,
    Scan,
    Thermal,
}

impl Visor {
    /// The visor that a name in lower case stands for.
    pub open spec fn spec_from_name(name: Seq<char>) -> Option<Visor> {
        if name == "combat"@ {
            Some(Visor::Combat)
        } else if name == "scan"@ {
            Some(Visor::Scan)
        } else if name == "thermal"@ {
            Some(Visor::Thermal)
        } else if name == "xray"@ {
            Some(Visor::XRay)
        } else {
            None
        }
    }

    /// The visor that a name in lower case stands for.
    pub fn from_name(name: &str) -> (r: Option<Visor>)
        ensures
            r == Self::spec_from_name(name@),
    {
        if same_text(name, "combat") {
            Some(Visor::Combat)
        } else if same_text(name, "scan") {
            Some(Visor::Scan)
        } else if same_text(name, "thermal") {
            Some(Visor::Thermal)
        } else if same_text(name, "xray") {
            Some(Visor::XRay)
        } else {
            None
        }
    }
}

/// A beam of the suit.
#[derive(Clone, Copy, Debug, PartialEq, Eq, Structural)]
pub enum Beam {
    Power,
    Ice,
    Wave,
    Plasma,
}

impl Beam {
    /// The beam that a name in lower case stands for.
    pub open spec fn spec_from_name(name: Seq<char>) -> Option<Beam> {
        if name == "power"@ {
            Some(Beam::Power)
        } else if name == "ice"@ {
            Some(Beam::Ice)
        } else if name == "wave"@ {
            Some(Beam::Wave)
        } else if name == "plasma"@ {
            Some(Beam::Plasma)
        } else {
            None
        }
    }

    /// The beam that a name in lower case stands for.
    pub fn from_name(name: &str) -> (r: Option<Beam>)
        ensures
            r == Self::spec_from_name(name@),
    {
        if same_text(name, "power") {
            Some(Beam::Power)
        } else if same_text(name, "ice") {
            Some(Beam::Ice)
        } else if same_text(name, "wave") {
            Some(Beam::Wave)
        } else if same_text(name, "plasma") {
            Some(Beam::Plasma)
        } else {
            None
        }
    }
}

/// The texts of the banner that a console shows for the game.
#[derive(Clone, Debug)]
pub struct GameBanner {
    pub game_name: Option<String>,
    pub game_name_full: Option<String>,
    pub developer: Option<String>,
    pub developer_full: Option<String>,
    pub description: Option<String>,
}

impl Default for GameBanner {
    /// A banner of which nothing is given.
    fn default() -> (banner: GameBanner)
        ensures
            banner == (GameBanner {
                game_name: None,
                game_name_full: None,
                developer: None,
                developer_full: None,
                description: None,
            }),
    {
        GameBanner {
            game_name: None,
            game_name_full: None,
            developer: None,
            developer_full: None,
            description: None,
        }
    }
}

/// Where a door leads.
#[derive(Clone, Debug)]
pub struct DoorDestination {
    pub room_name: String,
    pub dock_num: u32,
}

impl Default for DoorDestination {
    /// The dock 0 of a room without a name.
    fn default() -> (destination: DoorDestination)
        ensures
            destination.room_name@ == Seq::<char>::empty(),
            destination.dock_num == 0,
    {
        DoorDestination { room_name: String::new(), dock_num: 0 }
    }
}

/// What is changed of a door.
#[derive(Clone, Debug)]
pub struct DoorConfig {
    pub shield_type: Option<String>,
    pub blast_shield_type: Option<String>,
    /// A room of the same area.
    pub destination: Option<DoorDestination>,
}

impl Default for DoorConfig {
    /// A door of which nothing is changed.
    fn default() -> (door: DoorConfig)
        ensures
            door == (DoorConfig { shield_type: None, blast_shield_type: None, destination: None }),
    {
        DoorConfig { shield_type: None, blast_shield_type: None, destination: None }
    }
}

/// By how many degrees the colour of each suit is turned.
#[derive(Clone, Copy, Debug)]
pub struct SuitColors {
    pub power_deg: Option<i16>,
    pub varia_deg: Option<i16>,
    pub gravity_deg: Option<i16>,
    pub phazon_deg: Option<i16>,
}

impl Default for SuitColors {
    /// Suits in their own colours.
    fn default() -> (colors: SuitColors)
        ensures
            colors == (SuitColors {
                power_deg: None,
                varia_deg: None,
                gravity_deg: None,
                phazon_deg: None,
            }),
    {
        SuitColors { power_deg: None, varia_deg: None, gravity_deg: None, phazon_deg: None }
    }
}

/// The settings that a new save file starts with.
#[derive(Clone, Copy, Debug)]
pub struct DefaultGameOptions {
    pub screen_brightness: Option<u32>,
    pub screen_offset_x: Option<i32>,
    pub screen_offset_y: Option<i32>,
    pub screen_stretch: Option<i32>,
    pub sound_mode: Option<u32>,
    pub sfx_volume: Option<u32>,
    pub music_volume: Option<u32>,
    pub visor_opacity: Option<u32>,
    pub helmet_opacity: Option<u32>,
    pub hud_lag: Option<bool>,
    pub reverse_y_axis: Option<bool>,
    pub rumble: Option<bool>,
    pub swap_beam_controls: Option<bool>,
}

impl Default for DefaultGameOptions {
    /// The settings of the game itself.
    fn default() -> (options: DefaultGameOptions)
        ensures
            options == (DefaultGameOptions {
                screen_brightness: None,
                screen_offset_x: None,
                screen_offset_y: None,
                screen_stretch: None,
                sound_mode: None,
                sfx_volume: None,
                music_volume: None,
                visor_opacity: None,
                helmet_opacity: None,
                hud_lag: None,
                reverse_y_axis: None,
                rumble: None,
                swap_beam_controls: None,
            }),
    {
        DefaultGameOptions {
            screen_brightness: None,
            screen_offset_x: None,
            screen_offset_y: None,
            screen_stretch: None,
            sound_mode: None,
            sfx_volume: None,
            music_volume: None,
            visor_opacity: None,
            helmet_opacity: None,
            hud_lag: None,
            reverse_y_axis: None,
            rumble: None,
            swap_beam_controls: None,
        }
    }
}

/// A choice that names nothing the patcher knows.
#[derive(Debug)]
pub enum ConfigError {
    /// The behavior of the artifact hints, trimmed and in lower case.
    ArtifactHintBehavior(String),
    /// The state of the map, trimmed and in lower case.
    MapDefaultState(String),
    /// The cutscene mode, as it was given.
    CutsceneMode(String),
    /// The starting visor, as it was given.
    StartingVisor(String),
    /// The starting beam, as it was given.
    StartingBeam(String),
}

impl ConfigError {
    /// The text that tells of the error.
    pub open spec fn spec_message(&self) -> Seq<char> {
        match *self {
            ConfigError::ArtifactHintBehavior(name) => "Unhandled artifact hint behavior - '"@
                + name@ + "'"@,
            ConfigError::MapDefaultState(name) => "Unhandled map default state - '"@ + name@
                + "'"@,
            ConfigError::CutsceneMode(name) => "Unknown cutscene mode "@ + name@,
            ConfigError::StartingVisor(name) => "Unknown starting visor "@ + name@,
            ConfigError::StartingBeam(name) => "Unknown starting beam "@ + name@,
        }
    }

    /// The text that tells of the error.
    pub fn message(&self) -> (text: String)
        ensures
            text@ == self.spec_message(),
    {
        match self {
            ConfigError::ArtifactHintBehavior(name) => "Unhandled artifact hint behavior - '"
                .to_owned().concat(name.as_str()).concat("'"),
            ConfigError::MapDefaultState(name) => "Unhandled map default state - '".to_owned()
                .concat(name.as_str()).concat("'"),
            ConfigError::CutsceneMode(name) => "Unknown cutscene mode ".to_owned().concat(
                name.as_str(),
            ),
            ConfigError::StartingVisor(name) => "Unknown starting visor ".to_owned().concat(
                name.as_str(),
            ),
            ConfigError::StartingBeam(name) => "Unknown starting beam ".to_owned().concat(
                name.as_str(),
            ),
        }
    }
}

/// The choices of the player that do not change the game itself.
#[derive(Debug)]
pub struct Preferences {
    pub skip_splash_screens: Option<bool>,
    pub default_game_options: Option<DefaultGameOptions>,
    pub suit_colors: Option<SuitColors>,
    pub qol_game_breaking: Option<bool>,
    pub qol_cosmetic: Option<bool>,
    pub qol_cutscenes: Option<String>,
    pub qol_pickup_scans: Option<bool>,
    pub map_default_state: Option<String>,
    pub artifact_hint_behavior: Option<String>,
    pub automatic_crash_screen: Option<bool>,
    pub trilogy_disc_path: Option<String>,
    pub quickplay: Option<bool>,
    pub quickpatch: Option<bool>,
    pub quiet: Option<bool>,
}

/// The choices that change the game, but for those that are numbers with a
/// fraction, sets of items or tables by name.
#[derive(Debug)]
pub struct GameConfig {
    pub starting_room: Option<String>,
    pub starting_memo: Option<String>,
    pub spring_ball: Option<bool>,
    pub warp_to_start: Option<bool>,
    pub shuffle_pickup_position: Option<bool>,
    pub shuffle_pickup_pos_all_rooms: Option<bool>,
    pub remove_vanilla_blast_shields: Option<bool>,
    pub nonvaria_heat_damage: Option<bool>,
    pub staggered_suit_damage: Option<bool>,
    pub auto_enabled_elevators: Option<bool>,
    pub multiworld_dol_patches: Option<bool>,
    pub update_hint_state_replacement: Option<Vec<u8>>,
    pub disable_item_loss: Option<bool>,
    pub starting_visor: Option<String>,
    pub starting_beam: Option<String>,
    pub etank_capacity: Option<u32>,
    pub phazon_elite_without_dynamo: Option<bool>,
    pub main_plaza_door: Option<bool>,
    pub backwards_labs: Option<bool>,
    pub backwards_frigate: Option<bool>,
    pub backwards_upper_mines: Option<bool>,
    pub backwards_lower_mines: Option<bool>,
    pub patch_power_conduits: Option<bool>,
    pub remove_mine_security_station_locks: Option<bool>,
    pub game_banner: Option<GameBanner>,
    pub comment: Option<String>,
    pub main_menu_message: Option<String>,
    pub credits_string: Option<String>,
}

/// The choices as they were given. What was not given is `None`.
#[derive(Debug)]
pub struct PatchProfile {
    pub input_iso: Option<String>,
    pub output_iso: Option<String>,
    pub force_vanilla_layout: Option<bool>,
    pub extern_assets_dir: Option<String>,
    pub seed: Option<u64>,
    pub preferences: Preferences,
    pub game_config: GameConfig,
}

impl Preferences {
    /// Preferences of which none is given.
    pub open spec fn nothing_given() -> Preferences {
        Preferences {
            skip_splash_screens: None,
            default_game_options: None,
            suit_colors: None,
            qol_game_breaking: None,
            qol_cosmetic: None,
            qol_cutscenes: None,
            qol_pickup_scans: None,
            map_default_state: None,
            artifact_hint_behavior: None,
            automatic_crash_screen: None,
            trilogy_disc_path: None,
            quickplay: None,
            quickpatch: None,
            quiet: None,
        }
    }
}

impl Default for Preferences {
    /// Preferences of which none is given.
    fn default() -> (preferences: Preferences)
        ensures
            preferences == Preferences::nothing_given(),
    {
        Preferences {
            skip_splash_screens: None,
            default_game_options: None,
            suit_colors: None,
            qol_game_breaking: None,
            qol_cosmetic: None,
            qol_cutscenes: None,
            qol_pickup_scans: None,
            map_default_state: None,
            artifact_hint_behavior: None,
            automatic_crash_screen: None,
            trilogy_disc_path: None,
            quickplay: None,
            quickpatch: None,
            quiet: None,
        }
    }
}

impl GameConfig {
    /// Choices of which none is given.
    pub open spec fn nothing_given() -> GameConfig {
        GameConfig {
            starting_room: None,
            starting_memo: None,
            spring_ball: None,
            warp_to_start: None,
            shuffle_pickup_position: None,
            shuffle_pickup_pos_all_rooms: None,
            remove_vanilla_blast_shields: None,
            nonvaria_heat_damage: None,
            staggered_suit_damage: None,
            auto_enabled_elevators: None,
            multiworld_dol_patches: None,
            update_hint_state_replacement: None,
            disable_item_loss: None,
            starting_visor: None,
            starting_beam: None,
            etank_capacity: None,
            phazon_elite_without_dynamo: None,
            main_plaza_door: None,
            backwards_labs: None,
            backwards_frigate: None,
            backwards_upper_mines: None,
            backwards_lower_mines: None,
            patch_power_conduits: None,
            remove_mine_security_station_locks: None,
            game_banner: None,
            comment: None,
            main_menu_message: None,
            credits_string: None,
        }
    }
}

impl Default for GameConfig {
    /// Choices of which none is given.
    fn default() -> (game: GameConfig)
        ensures
            game == GameConfig::nothing_given(),
    {
        GameConfig {
            starting_room: None,
            starting_memo: None,
            spring_ball: None,
            warp_to_start: None,
            shuffle_pickup_position: None,
            shuffle_pickup_pos_all_rooms: None,
            remove_vanilla_blast_shields: None,
            nonvaria_heat_damage: None,
            staggered_suit_damage: None,
            auto_enabled_elevators: None,
            multiworld_dol_patches: None,
            update_hint_state_replacement: None,
            disable_item_loss: None,
            starting_visor: None,
            starting_beam: None,
            etank_capacity: None,
            phazon_elite_without_dynamo: None,
            main_plaza_door: None,
            backwards_labs: None,
            backwards_frigate: None,
            backwards_upper_mines: None,
            backwards_lower_mines: None,
            patch_power_conduits: None,
            remove_mine_security_station_locks: None,
            game_banner: None,
            comment: None,
            main_menu_message: None,
            credits_string: None,
        }
    }
}

impl PatchProfile {
    /// Choices of which none is given.
    pub open spec fn nothing_given() -> PatchProfile {
        PatchProfile {
            input_iso: None,
            output_iso: None,
            force_vanilla_layout: None,
            extern_assets_dir: None,
            seed: None,
            preferences: Preferences::nothing_given(),
            game_config: GameConfig::nothing_given(),
        }
    }
}

impl Default for PatchProfile {
    /// Choices of which none is given.
    fn default() -> (given: PatchProfile)
        ensures
            given == PatchProfile::nothing_given(),
    {
        PatchProfile {
            input_iso: None,
            output_iso: None,
            force_vanilla_layout: None,
            extern_assets_dir: None,
            seed: None,
            preferences: Preferences::default(),
            game_config: GameConfig::default(),
        }
    }
}

/// The files that a run reads and writes.
#[derive(Debug)]
pub struct IsoFiles {
    /// The name of the input file, as given or by default.
    pub input_iso: String,
    /// The name of the input file without the white space at its ends, under
    /// which the file is opened.
    pub input_iso_file: String,
    /// The name of the output file, as given or by default.
    pub output_iso: String,
    /// The format that the name of the output file asks for.
    pub iso_format: IsoFormat,
}

/// The choices completed: every one has a value.
#[derive(Debug)]
pub struct PatchSettings {
    pub extern_assets_dir: Option<String>,
    pub seed: u64,
    pub force_vanilla_layout: bool,
    pub qol_cutscenes: CutsceneMode,
    pub qol_game_breaking: bool,
    pub qol_cosmetic: bool,
    pub qol_pickup_scans: bool,
    pub phazon_elite_without_dynamo: bool,
    pub main_plaza_door: bool,
    pub backwards_labs: bool,
    pub backwards_frigate: bool,
    pub backwards_upper_mines: bool,
    pub backwards_lower_mines: bool,
    pub patch_power_conduits: bool,
    pub remove_mine_security_station_locks: bool,
    pub starting_room: String,
    pub starting_memo: Option<String>,
    pub spring_ball: bool,
    pub warp_to_start: bool,
    pub automatic_crash_screen: bool,
    pub etank_capacity: u32,
    pub shuffle_pickup_position: bool,
    pub shuffle_pickup_pos_all_rooms: bool,
    pub remove_vanilla_blast_shields: bool,
    pub nonvaria_heat_damage: bool,
    pub staggered_suit_damage: bool,
    pub map_default_state: MapState,
    pub auto_enabled_elevators: bool,
    pub multiworld_dol_patches: bool,
    pub update_hint_state_replacement: Option<Vec<u8>>,
    pub quiet: bool,
    pub disable_item_loss: bool,
    pub starting_visor: Visor,
    pub starting_beam: Beam,
    pub artifact_hint_behavior: ArtifactHintBehavior,
    /// Where the disc lies from which the music of one fight is taken.
    pub trilogy_disc_path: Option<String>,
    pub skip_splash_screens: bool,
    pub default_game_options: Option<DefaultGameOptions>,
    pub suit_colors: Option<SuitColors>,
    pub quickplay: bool,
    pub quickpatch: bool,
    pub game_banner: GameBanner,
    pub comment: String,
    pub main_menu_message: String,
    pub credits_string: Option<String>,
}

/// The code of the items that the game itself starts with.
pub const VANILLA_STARTING_ITEMS: u64 = 2188378143;

/// The code of the items that a game starts with, and of those that are left
/// after the loss of items, where none were given.
pub const DEFAULT_ITEMS: u64 = 1;

/// A set of items: one that was given, or the code to make one from.
#[derive(Debug)]
pub enum Items<T> {
    Given(T),
    FromCode(u64),
}

/// The items that a game starts with: in the layout of the game itself its
/// own, whatever was given; else what was given; else those of
/// [`DEFAULT_ITEMS`].
pub fn starting_items<T>(force_vanilla_layout: bool, given: Option<T>) -> (items: Items<T>)
    ensures
        items == (if force_vanilla_layout {
            Items::<T>::FromCode(VANILLA_STARTING_ITEMS)
        } else {
            match given {
                Some(set) => Items::Given(set),
                None => Items::<T>::FromCode(DEFAULT_ITEMS),
            }
        }),
{
    if force_vanilla_layout {
        Items::FromCode(VANILLA_STARTING_ITEMS)
    } else {
        match given {
            Some(set) => Items::Given(set),
            None => Items::FromCode(DEFAULT_ITEMS),
        }
    }
}

/// The items that are left after the loss of items: what was given, else
/// those of [`DEFAULT_ITEMS`].
pub fn item_loss_items<T>(given: Option<T>) -> (items: Items<T>)
    ensures
        items == (match given {
            Some(set) => Items::Given(set),
            None => Items::<T>::FromCode(DEFAULT_ITEMS),
        }),
{
    match given {
        Some(set) => Items::Given(set),
        None => Items::FromCode(DEFAULT_ITEMS),
    }
}

/// What was given, or `fallback` where nothing was.
pub open spec fn given_or<T>(given: Option<T>, fallback: T) -> T {
    match given {
        Some(value) => value,
        None => fallback,
    }
}

/// The text that was given, or `fallback` where none was.
pub open spec fn text_or(given: Option<String>, fallback: Seq<char>) -> Seq<char> {
    match given {
        Some(text) => text@,
        None => fallback,
    }
}

/// The text that was given, or `fallback` where none was.
fn text_or_default(given: Option<String>, fallback: &str) -> (text: String)
    ensures
        text@ == text_or(given, fallback@),
        given is Some ==> text == given->Some_0,
{
    match given {
        Some(text) => text,
        None => fallback.to_owned(),
    }
}

/// The text that was given, or `fallback` where none was.
fn text_of<'a>(given: &'a Option<String>, fallback: &'a str) -> (text: &'a str)
    ensures
        text@ == text_or(*given, fallback@),
{
    match given {
        Some(text) => text.as_str(),
        None => fallback,
    }
}

impl PatchProfile {
    /// Whether the layout of the game itself is kept.
    pub open spec fn vanilla(&self) -> bool {
        given_or(self.force_vanilla_layout, false)
    }

    /// The name of the behavior of the artifact hints, as it is looked up:
    /// trimmed, then in lower case. Where none was given it is that of `all`.
    pub open spec fn hint_name(&self) -> Seq<char> {
        lowercased(trimmed(text_or(self.preferences.artifact_hint_behavior, "all"@)))
    }

    /// The name of the state of the map, as it is looked up: trimmed, then in
    /// lower case. Where none was given it is that of `default`.
    pub open spec fn map_name(&self) -> Seq<char> {
        lowercased(trimmed(text_or(self.preferences.map_default_state, "default"@)))
    }

    /// The name of the cutscene mode, as it is looked up: in lower case, then
    /// trimmed. Where none was given it is that of `original`.
    pub open spec fn cutscene_name(&self) -> Seq<char> {
        trimmed(lowercased(text_or(self.preferences.qol_cutscenes, "original"@)))
    }

    /// The name of the starting visor, as it is looked up: in lower case,
    /// then trimmed. Where none was given it is that of `combat`.
    pub open spec fn visor_name(&self) -> Seq<char> {
        trimmed(lowercased(text_or(self.game_config.starting_visor, "combat"@)))
    }

    /// The name of the starting beam, as it is looked up: in lower case, then
    /// trimmed. Where none was given it is that of `power`.
    pub open spec fn beam_name(&self) -> Seq<char> {
        trimmed(lowercased(text_or(self.game_config.starting_beam, "power"@)))
    }

    /// Whether `error` tells of the first of the choices that names nothing,
    /// in the order hints, map, cutscenes, visor, beam.
    pub open spec fn fails_with(&self, error: &ConfigError) -> bool {
        match *error {
            ConfigError::ArtifactHintBehavior(name) => name@ == self.hint_name()
                && ArtifactHintBehavior::spec_from_name(self.hint_name()) is None,
            ConfigError::MapDefaultState(name) => name@ == self.map_name()
                && ArtifactHintBehavior::spec_from_name(self.hint_name()) is Some
                && MapState::spec_from_name(self.map_name()) is None,
            ConfigError::CutsceneMode(name) => name@ == text_or(
                self.preferences.qol_cutscenes,
                "original"@,
            ) && ArtifactHintBehavior::spec_from_name(self.hint_name()) is Some
                && MapState::spec_from_name(self.map_name()) is Some
                && CutsceneMode::spec_from_name(self.cutscene_name()) is None,
            ConfigError::StartingVisor(name) => name@ == text_or(
                self.game_config.starting_visor,
                "combat"@,
            ) && ArtifactHintBehavior::spec_from_name(self.hint_name()) is Some
                && MapState::spec_from_name(self.map_name()) is Some
                && CutsceneMode::spec_from_name(self.cutscene_name()) is Some
                && Visor::spec_from_name(self.visor_name()) is None,
            ConfigError::StartingBeam(name) => name@ == text_or(
                self.game_config.starting_beam,
                "power"@,
            ) && ArtifactHintBehavior::spec_from_name(self.hint_name()) is Some
                && MapState::spec_from_name(self.map_name()) is Some
                && CutsceneMode::spec_from_name(self.cutscene_name()) is Some
                && Visor::spec_from_name(self.visor_name()) is Some && Beam::spec_from_name(
                self.beam_name(),
            ) is None,
        }
    }

    /// Whether each of the five choices by name names something.
    pub open spec fn names_known(&self) -> bool {
        &&& ArtifactHintBehavior::spec_from_name(self.hint_name()) is Some
        &&& MapState::spec_from_name(self.map_name()) is Some
        &&& CutsceneMode::spec_from_name(self.cutscene_name()) is Some
        &&& Visor::spec_from_name(self.visor_name()) is Some
        &&& Beam::spec_from_name(self.beam_name()) is Some
    }

    /// Whether `settings` are these choices completed: what was given
    /// stands, but for what the layout of the game itself overrides; what
    /// was not given has its default.
    pub open spec fn completed_as(&self, settings: &PatchSettings) -> bool {
        let preferences = self.preferences;
        let game = self.game_config;
        let vanilla = self.vanilla();
        &&& self.names_known()
        &&& settings.extern_assets_dir == self.extern_assets_dir
        &&& settings.seed == given_or(self.seed, 123)
        &&& settings.force_vanilla_layout == vanilla
        &&& settings.qol_cutscenes == CutsceneMode::spec_from_name(self.cutscene_name())->Some_0
        &&& settings.qol_game_breaking == (vanilla || given_or(
            preferences.qol_game_breaking,
            true,
        ))
        &&& settings.qol_cosmetic == (!vanilla && given_or(preferences.qol_cosmetic, true))
        &&& settings.qol_pickup_scans == (!vanilla && given_or(preferences.qol_pickup_scans, true))
        &&& settings.phazon_elite_without_dynamo == given_or(
            game.phazon_elite_without_dynamo,
            true,
        )
        &&& settings.main_plaza_door == given_or(game.main_plaza_door, true)
        &&& settings.backwards_labs == given_or(game.backwards_labs, true)
        &&& settings.backwards_frigate == given_or(game.backwards_frigate, true)
        &&& settings.backwards_upper_mines == given_or(game.backwards_upper_mines, true)
        &&& settings.backwards_lower_mines == given_or(game.backwards_lower_mines, false)
        &&& settings.patch_power_conduits == given_or(game.patch_power_conduits, false)
        &&& settings.remove_mine_security_station_locks == given_or(
            game.remove_mine_security_station_locks,
            false,
        )
        &&& settings.starting_room@ == (if vanilla {
            "Frigate:Exterior Docking Hangar"@
        } else {
            text_or(game.starting_room, "Tallon:Landing Site"@)
        })
        &&& settings.starting_memo == game.starting_memo
        &&& settings.spring_ball == (!vanilla && given_or(game.spring_ball, false))
        &&& settings.warp_to_start == (!vanilla && given_or(game.warp_to_start, false))
        &&& settings.automatic_crash_screen == given_or(preferences.automatic_crash_screen, true)
        &&& settings.etank_capacity == given_or(game.etank_capacity, 100)
        &&& settings.shuffle_pickup_position == given_or(game.shuffle_pickup_position, false)
        &&& settings.shuffle_pickup_pos_all_rooms == given_or(
            game.shuffle_pickup_pos_all_rooms,
            false,
        )
        &&& settings.remove_vanilla_blast_shields == given_or(
            game.remove_vanilla_blast_shields,
            false,
        )
        &&& settings.nonvaria_heat_damage == given_or(game.nonvaria_heat_damage, false)
        &&& settings.staggered_suit_damage == given_or(game.staggered_suit_damage, false)
        &&& settings.map_default_state == MapState::spec_from_name(self.map_name())->Some_0
        &&& settings.auto_enabled_elevators == given_or(game.auto_enabled_elevators, false)
        &&& settings.multiworld_dol_patches == given_or(game.multiworld_dol_patches, false)
        &&& settings.update_hint_state_replacement == game.update_hint_state_replacement
        &&& settings.quiet == given_or(preferences.quiet, false)
        &&& settings.disable_item_loss == given_or(game.disable_item_loss, true)
        &&& settings.starting_visor == Visor::spec_from_name(self.visor_name())->Some_0
        &&& settings.starting_beam == Beam::spec_from_name(self.beam_name())->Some_0
        &&& settings.artifact_hint_behavior == ArtifactHintBehavior::spec_from_name(
            self.hint_name(),
        )->Some_0
        &&& settings.trilogy_disc_path == preferences.trilogy_disc_path
        &&& settings.skip_splash_screens == given_or(preferences.skip_splash_screens, false)
        &&& settings.default_game_options == preferences.default_game_options
        &&& settings.suit_colors == preferences.suit_colors
        &&& settings.quickplay == given_or(preferences.quickplay, false)
        &&& settings.quickpatch == given_or(preferences.quickpatch, false)
        &&& settings.game_banner == given_or(
            game.game_banner,
            GameBanner {
                game_name: None,
                game_name_full: None,
                developer: None,
                developer_full: None,
                description: None,
            },
        )
        &&& settings.comment@ == text_or(game.comment, Seq::<char>::empty())
        &&& settings.main_menu_message@ == (if vanilla {
            Seq::<char>::empty()
        } else {
            text_or(game.main_menu_message, "randomprime"@)
        })
        &&& if vanilla {
            settings.credits_string is Some && settings.credits_string->Some_0@ == Seq::<
                char,
            >::empty()
        } else {
            settings.credits_string == game.credits_string
        }
    }

    /// The files of the run: the input file, `prime.iso` where none was
    /// given, and the name under which it is opened; the output file,
    /// `prime_out.iso` where none was given, and the format that its name
    /// asks for.
    pub fn files(&self) -> (files: IsoFiles)
        ensures
            files.input_iso@ == text_or(self.input_iso, "prime.iso"@),
            files.input_iso_file@ == trimmed(files.input_iso@),
            files.output_iso@ == text_or(self.output_iso, "prime_out.iso"@),
            files.iso_format == IsoFormat::spec_of_path(files.output_iso@),
    {
        let input_iso: String = text_of(&self.input_iso, "prime.iso").to_owned();
        let input_iso_file: String = trim(input_iso.as_str()).to_owned();
        let output_iso: String = text_of(&self.output_iso, "prime_out.iso").to_owned();
        let iso_format = IsoFormat::of_path(output_iso.as_str());
        IsoFiles { input_iso, input_iso_file, output_iso, iso_format }
    }

    /// Completes the choices. The five choices by name are looked up first,
    /// in the order hints, map, cutscenes, visor, beam; the first that names
    /// nothing is the error.
    #[verifier::rlimit(50)]
    pub fn parse(self) -> (r: Result<PatchSettings, ConfigError>)
        ensures
            match r {
                Ok(settings) => self.completed_as(&settings),
                Err(error) => self.fails_with(&error),
            },
            self.names_known() <==> r is Ok,
    {
        let preferences = self.preferences;
        let game = self.game_config;
        let vanilla: bool = self.force_vanilla_layout.unwrap_or(false);

        let hint_name: String = to_lowercase(
            trim(text_of(&preferences.artifact_hint_behavior, "all")),
        );
        let artifact_hint_behavior = match ArtifactHintBehavior::from_name(hint_name.as_str()) {
            Some(behavior) => behavior,
            None => {
                return Err(ConfigError::ArtifactHintBehavior(hint_name));
            },
        };
        let map_name: String = to_lowercase(
            trim(text_of(&preferences.map_default_state, "default")),
        );
        let map_default_state = match MapState::from_name(map_name.as_str()) {
            Some(state) => state,
            None => {
                return Err(ConfigError::MapDefaultState(map_name));
            },
        };
        let cutscene_name: String = to_lowercase(text_of(&preferences.qol_cutscenes, "original"));
        let qol_cutscenes = match CutsceneMode::from_name(trim(cutscene_name.as_str())) {
            Some(mode) => mode,
            None => {
                return Err(
                    ConfigError::CutsceneMode(
                        text_or_default(preferences.qol_cutscenes, "original"),
                    ),
                );
            },
        };
        let visor_name: String = to_lowercase(text_of(&game.starting_visor, "combat"));
        let starting_visor = match Visor::from_name(trim(visor_name.as_str())) {
            Some(visor) => visor,
            None => {
                return Err(
                    ConfigError::StartingVisor(text_or_default(game.starting_visor, "combat")),
                );
            },
        };
        let beam_name: String = to_lowercase(text_of(&game.starting_beam, "power"));
        let starting_beam = match Beam::from_name(trim(beam_name.as_str())) {
            Some(beam) => beam,
            None => {
                return Err(
                    ConfigError::StartingBeam(text_or_default(game.starting_beam, "power")),
                );
            },
        };

        let starting_room: String = if vanilla {
            "Frigate:Exterior Docking Hangar".to_owned()
        } else {
            text_or_default(game.starting_room, "Tallon:Landing Site")
        };
        let main_menu_message: String = if vanilla {
            String::new()
        } else {
            text_or_default(game.main_menu_message, "randomprime")
        };
        let credits_string: Option<String> = if vanilla {
            Some(String::new())
        } else {
            game.credits_string
        };
        let game_banner: GameBanner = match game.game_banner {
            Some(banner) => banner,
            None => GameBanner::default(),
        };
        let comment: String = match game.comment {
            Some(comment) => comment,
            None => String::new(),
        };

        Ok(
            PatchSettings {
                extern_assets_dir: self.extern_assets_dir,
                seed: self.seed.unwrap_or(123),
                force_vanilla_layout: vanilla,
                qol_cutscenes,
                qol_game_breaking: vanilla || preferences.qol_game_breaking.unwrap_or(true),
                qol_cosmetic: !vanilla && preferences.qol_cosmetic.unwrap_or(true),
                qol_pickup_scans: !vanilla && preferences.qol_pickup_scans.unwrap_or(true),
                phazon_elite_without_dynamo: game.phazon_elite_without_dynamo.unwrap_or(true),
                main_plaza_door: game.main_plaza_door.unwrap_or(true),
                backwards_labs: game.backwards_labs.unwrap_or(true),
                backwards_frigate: game.backwards_frigate.unwrap_or(true),
                backwards_upper_mines: game.backwards_upper_mines.unwrap_or(true),
                backwards_lower_mines: game.backwards_lower_mines.unwrap_or(false),
                patch_power_conduits: game.patch_power_conduits.unwrap_or(false),
                remove_mine_security_station_locks: game.remove_mine_security_station_locks
                    .unwrap_or(false),
                starting_room,
                starting_memo: game.starting_memo,
                spring_ball: !vanilla && game.spring_ball.unwrap_or(false),
                warp_to_start: !vanilla && game.warp_to_start.unwrap_or(false),
                automatic_crash_screen: preferences.automatic_crash_screen.unwrap_or(true),
                etank_capacity: game.etank_capacity.unwrap_or(100),
                shuffle_pickup_position: game.shuffle_pickup_position.unwrap_or(false),
                shuffle_pickup_pos_all_rooms: game.shuffle_pickup_pos_all_rooms.unwrap_or(false),
                remove_vanilla_blast_shields: game.remove_vanilla_blast_shields.unwrap_or(false),
                nonvaria_heat_damage: game.nonvaria_heat_damage.unwrap_or(false),
                staggered_suit_damage: game.staggered_suit_damage.unwrap_or(false),
                map_default_state,
                auto_enabled_elevators: game.auto_enabled_elevators.unwrap_or(false),
                multiworld_dol_patches: game.multiworld_dol_patches.unwrap_or(false),
                update_hint_state_replacement: game.update_hint_state_replacement,
                quiet: preferences.quiet.unwrap_or(false),
                disable_item_loss: game.disable_item_loss.unwrap_or(true),
                starting_visor,
                starting_beam,
                artifact_hint_behavior,
                trilogy_disc_path: preferences.trilogy_disc_path,
                skip_splash_screens: preferences.skip_splash_screens.unwrap_or(false),
                default_game_options: preferences.default_game_options,
                suit_colors: preferences.suit_colors,
                quickplay: preferences.quickplay.unwrap_or(false),
                quickpatch: preferences.quickpatch.unwrap_or(false),
                game_banner,
                comment,
                main_menu_message,
                credits_string,
            },
        )
    }
}

} // verus!
