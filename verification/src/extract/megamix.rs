//! Where the Tickflow code of Rhythm Heaven Megamix lies.
use vstd::prelude::*;

verus! {

/// The address that the first byte of the code file is loaded at.
pub const CODE_OFFSET: u32 = 0x100000;

pub enum Region {
    JP,
    US,
    EU,
    KR,
}

/// The scenes of the game: each game and each menu is one.
#[derive(Debug, Clone, Copy, PartialEq, Eq, Structural)]
pub enum Scene {
    // Global subs
    Global,
    // Tengoku
    AgbBatter,
    AgbClap,
    AgbGhost,
    AgbHair,
    AgbHopping,
    AgbMarcher,
    AgbNightWalk,
    AgbQuiz,
    AgbRabbit,
    AgbRat,
    AgbShuji,
    AgbSpaceDance,
    AgbTap,
    AgbTono,
    // DS
    NtrAirBoard,
    NtrBackbeat,
    NtrBlueBirds,
    NtrBoxShow,
    NtrCameraMan,
    NtrChorus,
    NtrFrog,
    NtrIdol,
    NtrNinja,
    NtrPingPong,
    NtrRobot,
    NtrShooting,
    NtrShortLive,
    NtrShugyo,
    // Fever
    RvlAssemble,
    RvlBadminton,
    RvlBatting,
    RvlBird,
    RvlBook,
    RvlDate,
    RvlFishing,
    RvlFlea,
    RvlFork,
    RvlGolf,
    RvlGoma,
    RvlInterview,
    RvlKarate,
    RvlManju,
    RvlMuscle,
    RvlRap,
    RvlRecieve,
    RvlRobot,
    RvlRocket,
    RvlRotation,
    RvlSamurai,
    RvlSeesaw,
    RvlSort,
    RvlWatch,
    // Megamix
    CtrBear,
    CtrBlanco,
    CtrChameleon,
    CtrDotSamurai,
    CtrFruitbasket,
    CtrInterpreter,
    CtrPillow,
    CtrStep,
    CtrSumou,
    CtrTango,
    CtrTeppan,
    CtrWoodCat,
    // Endless
    AgbVirus,
    NtrCoinToss,
    RvlSword,
    CtrChicken,
    // Misc
    Unk44,
    CorruptSaveHandler,
    Title,
    WorldMap,
    Tower,
    Prologue,
    Epilogue,
    Intro,
    Farewell,
    GameCount,
    LetterMED,
    Tutorial,
    Goat,
    Cafe,
    Shop,
    Museum,
    Badges,
    Memories,
    Mascots,
    Slideshow,
    StreetPass,
    ChallengeLand,
    ChallengeTrain,
    ChallengeResultScore,
    ChallengeResultLife,
    ChallengeResultMonster,
    ChallengeCourseSelect,
    Unk5F,
    DownloadPlay,
    DemoUnk61,
    DemoMessage,
}

impl Scene {
    /// The number that the game knows the scene by.
    pub open spec fn id_spec(self) -> u8 {
        match self {
            Scene::Global => 0xFF,
            Scene::AgbBatter => 0,
            Scene::AgbClap => 1,
            Scene::AgbGhost => 2,
            Scene::AgbHair => 3,
            Scene::AgbHopping => 4,
            Scene::AgbMarcher => 5,
            Scene::AgbNightWalk => 6,
            Scene::AgbQuiz => 7,
            Scene::AgbRabbit => 8,
            Scene::AgbRat => 9,
            Scene::AgbShuji => 0xA,
            Scene::AgbSpaceDance => 0xB,
            Scene::AgbTap => 0xC,
            Scene::AgbTono => 0xD,
            Scene::NtrAirBoard => 0xE,
            Scene::NtrBackbeat => 0xF,
            Scene::NtrBlueBirds => 0x10,
            Scene::NtrBoxShow => 0x11,
            Scene::NtrCameraMan => 0x12,
            Scene::NtrChorus => 0x13,
            Scene::NtrFrog => 0x14,
            Scene::NtrIdol => 0x15,
            Scene::NtrNinja => 0x16,
            Scene::NtrPingPong => 0x17,
            Scene::NtrRobot => 0x18,
            Scene::NtrShooting => 0x19,
            Scene::NtrShortLive => 0x1A,
            Scene::NtrShugyo => 0x1B,
            Scene::RvlAssemble => 0x1C,
            Scene::RvlBadminton => 0x1D,
            Scene::RvlBatting => 0x1E,
            Scene::RvlBird => 0x1F,
            Scene::RvlBook => 0x20,
            Scene::RvlDate => 0x21,
            Scene::RvlFishing => 0x22,
            Scene::RvlFlea => 0x23,
            Scene::RvlFork => 0x24,
            Scene::RvlGolf => 0x25,
            Scene::RvlGoma => 0x26,
            Scene::RvlInterview => 0x27,
            Scene::RvlKarate => 0x28,
            Scene::RvlManju => 0x29,
            Scene::RvlMuscle => 0x2A,
            Scene::RvlRap => 0x2B,
            Scene::RvlRecieve => 0x2C,
            Scene::RvlRobot => 0x2D,
            Scene::RvlRocket => 0x2E,
            Scene::RvlRotation => 0x2F,
            Scene::RvlSamurai => 0x30,
            Scene::RvlSeesaw => 0x31,
            Scene::RvlSort => 0x32,
            Scene::RvlWatch => 0x33,
            Scene::CtrBear => 0x34,
            Scene::CtrBlanco => 0x35,
            Scene::CtrChameleon => 0x36,
            Scene::CtrDotSamurai => 0x37,
            Scene::CtrFruitbasket => 0x38,
            Scene::CtrInterpreter => 0x39,
            Scene::CtrPillow => 0x3A,
            Scene::CtrStep => 0x3B,
            Scene::CtrSumou => 0x3C,
            Scene::CtrTango => 0x3D,
            Scene::CtrTeppan => 0x3E,
            Scene::CtrWoodCat => 0x3F,
            Scene::AgbVirus => 0x40,
            Scene::NtrCoinToss => 0x41,
            Scene::RvlSword => 0x42,
            Scene::CtrChicken => 0x43,
            Scene::Unk44 => 0x44,
            Scene::CorruptSaveHandler => 0x45,
            Scene::Title => 0x46,
            Scene::WorldMap => 0x47,
            Scene::Tower => 0x48,
            Scene::Prologue => 0x49,
            Scene::Epilogue => 0x4A,
            Scene::Intro => 0x4B,
            Scene::Farewell => 0x4C,
            Scene::GameCount => 0x4D,
            Scene::LetterMED => 0x4E,
            Scene::Tutorial => 0x4F,
            Scene::Goat => 0x50,
            Scene::Cafe => 0x51,
            Scene::Shop => 0x52,
            Scene::Museum => 0x53,
            Scene::Badges => 0x54,
            Scene::Memories => 0x55,
            Scene::Mascots => 0x56,
            Scene::Slideshow => 0x57,
            Scene::StreetPass => 0x58,
            Scene::ChallengeLand => 0x59,
            Scene::ChallengeTrain => 0x5A,
            Scene::ChallengeResultScore => 0x5B,
            Scene::ChallengeResultLife => 0x5C,
            Scene::ChallengeResultMonster => 0x5D,
            Scene::ChallengeCourseSelect => 0x5E,
            Scene::Unk5F => 0x5F,
            Scene::DownloadPlay => 0x60,
            Scene::DemoUnk61 => 0x61,
            Scene::DemoMessage => 0x62,
        }
    }

    /// The number that the game knows the scene by.
    pub fn id(self) -> (id: u8)
        ensures
            id == self.id_spec(),
    {
        match self {
            Scene::Global => 0xFF,
            Scene::AgbBatter => 0,
            Scene::AgbClap => 1,
            Scene::AgbGhost => 2,
            Scene::AgbHair => 3,
            Scene::AgbHopping => 4,
            Scene::AgbMarcher => 5,
            Scene::AgbNightWalk => 6,
            Scene::AgbQuiz => 7,
            Scene::AgbRabbit => 8,
            Scene::AgbRat => 9,
            Scene::AgbShuji => 0xA,
            Scene::AgbSpaceDance => 0xB,
            Scene::AgbTap => 0xC,
            Scene::AgbTono => 0xD,
            Scene::NtrAirBoard => 0xE,
            Scene::NtrBackbeat => 0xF,
            Scene::NtrBlueBirds => 0x10,
            Scene::NtrBoxShow => 0x11,
            Scene::NtrCameraMan => 0x12,
            Scene::NtrChorus => 0x13,
            Scene::NtrFrog => 0x14,
            Scene::NtrIdol => 0x15,
            Scene::NtrNinja => 0x16,
            Scene::NtrPingPong => 0x17,
            Scene::NtrRobot => 0x18,
            Scene::NtrShooting => 0x19,
            Scene::NtrShortLive => 0x1A,
            Scene::NtrShugyo => 0x1B,
            Scene::RvlAssemble => 0x1C,
            Scene::RvlBadminton => 0x1D,
            Scene::RvlBatting => 0x1E,
            Scene::RvlBird => 0x1F,
            Scene::RvlBook => 0x20,
            Scene::RvlDate => 0x21,
            Scene::RvlFishing => 0x22,
            Scene::RvlFlea => 0x23,
            Scene::RvlFork => 0x24,
            Scene::RvlGolf => 0x25,
            Scene::RvlGoma => 0x26,
            Scene::RvlInterview => 0x27,
            Scene::RvlKarate => 0x28,
            Scene::RvlManju => 0x29,
            Scene::RvlMuscle => 0x2A,
            Scene::RvlRap => 0x2B,
            Scene::RvlRecieve => 0x2C,
            Scene::RvlRobot => 0x2D,
            Scene::RvlRocket => 0x2E,
            Scene::RvlRotation => 0x2F,
            Scene::RvlSamurai => 0x30,
            Scene::RvlSeesaw => 0x31,
            Scene::RvlSort => 0x32,
            Scene::RvlWatch => 0x33,
            Scene::CtrBear => 0x34,
            Scene::CtrBlanco => 0x35,
            Scene::CtrChameleon => 0x36,
            Scene::CtrDotSamurai => 0x37,
            Scene::CtrFruitbasket => 0x38,
            Scene::CtrInterpreter => 0x39,
            Scene::CtrPillow => 0x3A,
            Scene::CtrStep => 0x3B,
            Scene::CtrSumou => 0x3C,
            Scene::CtrTango => 0x3D,
            Scene::CtrTeppan => 0x3E,
            Scene::CtrWoodCat => 0x3F,
            Scene::AgbVirus => 0x40,
            Scene::NtrCoinToss => 0x41,
            Scene::RvlSword => 0x42,
            Scene::CtrChicken => 0x43,
            Scene::Unk44 => 0x44,
            Scene::CorruptSaveHandler => 0x45,
            Scene::Title => 0x46,
            Scene::WorldMap => 0x47,
            Scene::Tower => 0x48,
            Scene::Prologue => 0x49,
            Scene::Epilogue => 0x4A,
            Scene::Intro => 0x4B,
            Scene::Farewell => 0x4C,
            Scene::GameCount => 0x4D,
            Scene::LetterMED => 0x4E,
            Scene::Tutorial => 0x4F,
            Scene::Goat => 0x50,
            Scene::Cafe => 0x51,
            Scene::Shop => 0x52,
            Scene::Museum => 0x53,
            Scene::Badges => 0x54,
            Scene::Memories => 0x55,
            Scene::Mascots => 0x56,
            Scene::Slideshow => 0x57,
            Scene::StreetPass => 0x58,
            Scene::ChallengeLand => 0x59,
            Scene::ChallengeTrain => 0x5A,
            Scene::ChallengeResultScore => 0x5B,
            Scene::ChallengeResultLife => 0x5C,
            Scene::ChallengeResultMonster => 0x5D,
            Scene::ChallengeCourseSelect => 0x5E,
            Scene::Unk5F => 0x5F,
            Scene::DownloadPlay => 0x60,
            Scene::DemoUnk61 => 0x61,
            Scene::DemoMessage => 0x62,
        }
    }
}

/// A list of named addresses.
pub type NamedLocations = &'static [(&'static str, u32)];

/// The entry points of one version of the game, by name.
pub struct MegamixLocations {
    pub games: NamedLocations,
    pub gates: NamedLocations,
    pub gate_practices: NamedLocations,
    pub subs: NamedLocations,
    pub misc: NamedLocations,
}

/// The entry points of the US version.
#[verifier::rlimit(100)]
pub fn locations_us() -> (places: MegamixLocations)
    ensures
        places.is_us(),
{
    let places = MegamixLocations {
        games: &[
            // Tengoku - prequels
            ("agbClap_short", 0x39d6dc),
            ("agbGhost_short", 0x39f2d4),
            ("agbHair_short", 0x3a36e8),
            // DS - prequels
            ("ntrChorus_short", 0x418274),
            ("ntrPingPong_short", 0x436b04),
            ("ntrRobot_short", 0x43963c),
            ("ntrShooting_short", 0x43cf18),
            // Fever - prequels
            ("rvlBadminton_short", 0x4719cc),
            ("rvlFlea_short", 0x481260),
            ("rvlGoma_short", 0x48b308),
            ("rvlMuscle_short", 0x4ac0ec),
            // Megamix - prequels
            ("ctrFruitbasket_short", 0x3ee7d8),
            ("ctrInterpreter_short", 0x3f2380),
            ("ctrStep_short", 0x3f7b60),
            ("ctrWoodCat_short", 0x403c94),
            // Tengoku - standard games
            ("agbBatter_long", 0x39a43c),
            ("agbClap_long", 0x39c824),
            ("agbGhost_long", 0x39ea80),
            ("agbHair_long", 0x3a0e24),
            ("agbHopping_long", 0x3a5b44),
            ("agbMarcher_long", 0x3a6cd8),
            ("agbNightWalk_long", 0x3a87c4),
            ("agbQuiz_long", 0x3ab094),
            ("agbRabbit_long", 0x3add80),
            ("agbRat_long", 0x3afa0c),
            ("agbShuji_long", 0x3b1350),
            ("agbSpaceDance_long", 0x3b6cec),
            ("agbTap_long", 0x3ba4ec),
            ("agbTono_long", 0x3bc5a4),
            // DS - standard games
            ("ntrAirBoard_long", 0x40aff0),
            ("ntrBackbeat_long", 0x40d5f0),
            ("ntrBlueBirds_long", 0x410070),
            ("ntrBoxShow_long", 0x411b24),
            ("ntrCameraMan_long", 0x413e10),
            ("ntrChorus_long", 0x416554),
            ("ntrFrog_long", 0x41eba4),
            ("ntrIdol_long", 0x42f9a4),
            ("ntrNinja_long", 0x432420),
            ("ntrPingPong_long", 0x435388),
            ("ntrRobot_long", 0x438404),
            ("ntrShooting_long", 0x43b36c),
            ("ntrShortLive_long", 0x43f288),
            ("ntrShugyo_long", 0x441b20),
            // Fever - standard games
            ("rvlAssemble_long", 0x467c24),
            ("rvlBadminton_long", 0x4702b0),
            ("rvlBatting_long", 0x473488),
            ("rvlBird_long", 0x474670),
            ("rvlBook_long", 0x4776b8),
            ("rvlDate_long", 0x47b1b8),
            ("rvlFishing_long", 0x47dba4),
            ("rvlFlea_long", 0x47fe54),
            ("rvlFork_long", 0x4831b8),
            ("rvlGolf_long", 0x486874),
            ("rvlGoma_long", 0x488604),
            ("rvlInterview_long", 0x490ef0),
            ("rvlManju_long", 0x4a5ccc),
            ("rvlMuscle_long", 0x4a9774),
            ("rvlRap_long", 0x4ade78),
            ("rvlRecieve_long", 0x4b2a94),
            ("rvlRobot_long", 0x4b4bdc),
            ("rvlRocket_long", 0x4b6608),
            ("rvlRotation_long", 0x4b8948),
            ("rvlSamurai_long", 0x4ba75c),
            ("rvlSeesaw_long", 0x4bc698),
            ("rvlSort_long", 0x4bdac8),
            ("rvlWatch_long", 0x4c1d24),
            // Megamix - standard games
            ("ctrBear_long", 0x3c2ad0),
            ("ctrBlanco_long", 0x3c53e8),
            ("ctrChameleon_long", 0x3c68dc),
            ("ctrDotSamurai_long", 0x3e9dfc),
            ("ctrFruitbasket_long", 0x3ecca0),
            ("ctrInterpreter_long", 0x3f04a0),
            ("ctrPillow_long", 0x3f47ac),
            ("ctrStep_long", 0x3f60f8),
            ("ctrSumou_long", 0x3f9fb4),
            ("ctrTango_long", 0x3fcae8),
            ("ctrTeppan_long", 0x3ff460),
            ("ctrWoodCat_long", 0x401360),
            // Tengoku - sequels
            ("agbClap_arrange", 0x39b938),
            ("agbSpaceDance_arrange", 0x3b4f88),
            ("agbTap_arrange", 0x3b980c),
            // DS - sequels
            ("ntrFrog_arrange", 0x41c894),
            ("ntrIdol_arrange", 0x42bd50),
            ("ntrPingPong_arrange", 0x433ce4),
            // Fever - sequels
            ("rvlGolf_arrange", 0x485164),
            ("rvlManju_arrange", 0x4a56fc),
            ("rvlMuscle_arrange", 0x4a6de8),
            // Megamix - sequels
            ("ctrBlanco_arrange", 0x3c42a4),
            ("ctrDotSamurai_arrange", 0x3e88ec),
            // Karate Man
            ("rvlKarate0", 0x493220),  // Prequel
            ("rvlKarate1", 0x495c28),  // Returns
            ("rvlKarate2", 0x4983fc),  // Kicks
            ("rvlKarate3", 0x49c174),  // Combos
            ("rvlKarate4", 0x4a1d30),  // Senior
            // Remixes
            ("remixLED", 0x45d3e4),  // Lush (Low EnDing)
            ("remixTED", 0x4600bc),  // Final (Top EnDing)
            ("remix00", 0x443f94),  // Honeybee
            ("remix01", 0x44734c),  // Machine
            ("remix02", 0x44b458),  // Citrus
            ("remix03", 0x44e498),  // Donut
            ("remix04", 0x450b58),  // Barbershop
            ("remix05", 0x45350c),  // Songbird
            ("remix06", 0x456210),  // Left-Hand
            ("remix07", 0x459b20),  // Right-Hand
        ],
        gates: &[
            ("agbVirus00", 0x3bdd64),
            ("agbVirus01", 0x3bfdb0),
            ("agbVirus02", 0x3c0888),
            ("agbVirusEndless", 0x3c1448),
            ("ntrCoinToss00", 0x419b40),
            ("ntrCoinToss01", 0x41b688),
            ("ntrCoinToss02", 0x41bd5c),
            ("ntrCoinTossEndless", 0x41c430),
            ("rvlSword00", 0x4bf1c8),
            ("rvlSword01", 0x4c09cc),
            ("rvlSword02", 0x4c0f08),
            ("rvlSwordEndless", 0x4c1304),
            ("ctrChicken00", 0x3c96dc),
            ("ctrChicken01", 0x3cb3d4),
            ("ctrChicken02", 0x3cc278),
            ("ctrChickenEndless", 0x3cd11c),
        ],
        gate_practices: &[
            ("agbVirusPractice", 0x3bdee4),
            ("ctrCoinTossPractice", 0x419cc0),
            ("rvlSwordPractice", 0x4bf348),
            ("ctrChickenPractice", 0x3c985c),
        ],
        subs: &[],
        misc: &[],
    };
    assert(named(places.games@) =~= games_us());
    assert(named(places.gates@) =~= gates_us());
    assert(named(places.gate_practices@) =~= gate_practices_us());
    places
}

/// The names and addresses of a list.
pub open spec fn named(list: Seq<(&'static str, u32)>) -> Seq<(Seq<char>, u32)> {
    Seq::new(list.len(), |i: int| (list[i].0@, list[i].1))
}

/// The games of the US version: where the code of each begins.
pub open spec fn games_us() -> Seq<(Seq<char>, u32)> {
    seq![
        // Tengoku - prequels
        ("agbClap_short"@, 0x39d6dcu32),
        ("agbGhost_short"@, 0x39f2d4u32),
        ("agbHair_short"@, 0x3a36e8u32),
        // DS - prequels
        ("ntrChorus_short"@, 0x418274u32),
        ("ntrPingPong_short"@, 0x436b04u32),
        ("ntrRobot_short"@, 0x43963cu32),
        ("ntrShooting_short"@, 0x43cf18u32),
        // Fever - prequels
        ("rvlBadminton_short"@, 0x4719ccu32),
        ("rvlFlea_short"@, 0x481260u32),
        ("rvlGoma_short"@, 0x48b308u32),
        ("rvlMuscle_short"@, 0x4ac0ecu32),
        // Megamix - prequels
        ("ctrFruitbasket_short"@, 0x3ee7d8u32),
        ("ctrInterpreter_short"@, 0x3f2380u32),
        ("ctrStep_short"@, 0x3f7b60u32),
        ("ctrWoodCat_short"@, 0x403c94u32),
        // Tengoku - standard games
        ("agbBatter_long"@, 0x39a43cu32),
        ("agbClap_long"@, 0x39c824u32),
        ("agbGhost_long"@, 0x39ea80u32),
        ("agbHair_long"@, 0x3a0e24u32),
        ("agbHopping_long"@, 0x3a5b44u32),
        ("agbMarcher_long"@, 0x3a6cd8u32),
        ("agbNightWalk_long"@, 0x3a87c4u32),
        ("agbQuiz_long"@, 0x3ab094u32),
        ("agbRabbit_long"@, 0x3add80u32),
        ("agbRat_long"@, 0x3afa0cu32),
        ("agbShuji_long"@, 0x3b1350u32),
        ("agbSpaceDance_long"@, 0x3b6cecu32),
        ("agbTap_long"@, 0x3ba4ecu32),
        ("agbTono_long"@, 0x3bc5a4u32),
        // DS - standard games
        ("ntrAirBoard_long"@, 0x40aff0u32),
        ("ntrBackbeat_long"@, 0x40d5f0u32),
        ("ntrBlueBirds_long"@, 0x410070u32),
        ("ntrBoxShow_long"@, 0x411b24u32),
        ("ntrCameraMan_long"@, 0x413e10u32),
        ("ntrChorus_long"@, 0x416554u32),
        ("ntrFrog_long"@, 0x41eba4u32),
        ("ntrIdol_long"@, 0x42f9a4u32),
        ("ntrNinja_long"@, 0x432420u32),
        ("ntrPingPong_long"@, 0x435388u32),
        ("ntrRobot_long"@, 0x438404u32),
        ("ntrShooting_long"@, 0x43b36cu32),
        ("ntrShortLive_long"@, 0x43f288u32),
        ("ntrShugyo_long"@, 0x441b20u32),
        // Fever - standard games
        ("rvlAssemble_long"@, 0x467c24u32),
        ("rvlBadminton_long"@, 0x4702b0u32),
        ("rvlBatting_long"@, 0x473488u32),
        ("rvlBird_long"@, 0x474670u32),
        ("rvlBook_long"@, 0x4776b8u32),
        ("rvlDate_long"@, 0x47b1b8u32),
        ("rvlFishing_long"@, 0x47dba4u32),
        ("rvlFlea_long"@, 0x47fe54u32),
        ("rvlFork_long"@, 0x4831b8u32),
        ("rvlGolf_long"@, 0x486874u32),
        ("rvlGoma_long"@, 0x488604u32),
        ("rvlInterview_long"@, 0x490ef0u32),
        ("rvlManju_long"@, 0x4a5cccu32),
        ("rvlMuscle_long"@, 0x4a9774u32),
        ("rvlRap_long"@, 0x4ade78u32),
        ("rvlRecieve_long"@, 0x4b2a94u32),
        ("rvlRobot_long"@, 0x4b4bdcu32),
        ("rvlRocket_long"@, 0x4b6608u32),
        ("rvlRotation_long"@, 0x4b8948u32),
        ("rvlSamurai_long"@, 0x4ba75cu32),
        ("rvlSeesaw_long"@, 0x4bc698u32),
        ("rvlSort_long"@, 0x4bdac8u32),
        ("rvlWatch_long"@, 0x4c1d24u32),
        // Megamix - standard games
        ("ctrBear_long"@, 0x3c2ad0u32),
        ("ctrBlanco_long"@, 0x3c53e8u32),
        ("ctrChameleon_long"@, 0x3c68dcu32),
        ("ctrDotSamurai_long"@, 0x3e9dfcu32),
        ("ctrFruitbasket_long"@, 0x3ecca0u32),
        ("ctrInterpreter_long"@, 0x3f04a0u32),
        ("ctrPillow_long"@, 0x3f47acu32),
        ("ctrStep_long"@, 0x3f60f8u32),
        ("ctrSumou_long"@, 0x3f9fb4u32),
        ("ctrTango_long"@, 0x3fcae8u32),
        ("ctrTeppan_long"@, 0x3ff460u32),
        ("ctrWoodCat_long"@, 0x401360u32),
        // Tengoku - sequels
        ("agbClap_arrange"@, 0x39b938u32),
        ("agbSpaceDance_arrange"@, 0x3b4f88u32),
        ("agbTap_arrange"@, 0x3b980cu32),
        // DS - sequels
        ("ntrFrog_arrange"@, 0x41c894u32),
        ("ntrIdol_arrange"@, 0x42bd50u32),
        ("ntrPingPong_arrange"@, 0x433ce4u32),
        // Fever - sequels
        ("rvlGolf_arrange"@, 0x485164u32),
        ("rvlManju_arrange"@, 0x4a56fcu32),
        ("rvlMuscle_arrange"@, 0x4a6de8u32),
        // Megamix - sequels
        ("ctrBlanco_arrange"@, 0x3c42a4u32),
        ("ctrDotSamurai_arrange"@, 0x3e88ecu32),
        // Karate Man
        ("rvlKarate0"@, 0x493220u32),  // Prequel
        ("rvlKarate1"@, 0x495c28u32),  // Returns
        ("rvlKarate2"@, 0x4983fcu32),  // Kicks
        ("rvlKarate3"@, 0x49c174u32),  // Combos
        ("rvlKarate4"@, 0x4a1d30u32),  // Senior
        // Remixes
        ("remixLED"@, 0x45d3e4u32),  // Lush (Low EnDing)
        ("remixTED"@, 0x4600bcu32),  // Final (Top EnDing)
        ("remix00"@, 0x443f94u32),  // Honeybee
        ("remix01"@, 0x44734cu32),  // Machine
        ("remix02"@, 0x44b458u32),  // Citrus
        ("remix03"@, 0x44e498u32),  // Donut
        ("remix04"@, 0x450b58u32),  // Barbershop
        ("remix05"@, 0x45350cu32),  // Songbird
        ("remix06"@, 0x456210u32),  // Left-Hand
        ("remix07"@, 0x459b20u32),  // Right-Hand
    ]
}

/// The games that the keepers of the tower set, in the US version.
pub open spec fn gates_us() -> Seq<(Seq<char>, u32)> {
    seq![
        ("agbVirus00"@, 0x3bdd64u32),
        ("agbVirus01"@, 0x3bfdb0u32),
        ("agbVirus02"@, 0x3c0888u32),
        ("agbVirusEndless"@, 0x3c1448u32),
        ("ntrCoinToss00"@, 0x419b40u32),
        ("ntrCoinToss01"@, 0x41b688u32),
        ("ntrCoinToss02"@, 0x41bd5cu32),
        ("ntrCoinTossEndless"@, 0x41c430u32),
        ("rvlSword00"@, 0x4bf1c8u32),
        ("rvlSword01"@, 0x4c09ccu32),
        ("rvlSword02"@, 0x4c0f08u32),
        ("rvlSwordEndless"@, 0x4c1304u32),
        ("ctrChicken00"@, 0x3c96dcu32),
        ("ctrChicken01"@, 0x3cb3d4u32),
        ("ctrChicken02"@, 0x3cc278u32),
        ("ctrChickenEndless"@, 0x3cd11cu32),
    ]
}

/// The practices of the keepers' games, in the US version.
pub open spec fn gate_practices_us() -> Seq<(Seq<char>, u32)> {
    seq![
        ("agbVirusPractice"@, 0x3bdee4u32),
        ("ctrCoinTossPractice"@, 0x419cc0u32),
        ("rvlSwordPractice"@, 0x4bf348u32),
        ("ctrChickenPractice"@, 0x3c985cu32),
    ]
}

impl MegamixLocations {
    /// Whether these are the entry points of the US version.
    pub open spec fn is_us(&self) -> bool {
        &&& named(self.games@) == games_us()
        &&& named(self.gates@) == gates_us()
        &&& named(self.gate_practices@) == gate_practices_us()
        &&& self.subs@.len() == 0
        &&& self.misc@.len() == 0
    }
}

} // verus!
