//! The configuration of the controllers and rooms, and the rule that turns a
//! booking's interval into the interval during which a room is heated.

use crate::text::{decimal, decimal_text};
use vstd::prelude::*;
use vstd::string::*;

verus! {

/// Why a configuration cannot be used.
#[derive(Debug)]
pub enum CreateConfigError {
    /// A controller names a room that the `rooms` section does not hold.
    RoomNotFoundError(String),
    /// An output index is not within 1-64.
    PDOIndexOutOfBounds(u8),
}

impl CreateConfigError {
    /// What the error says, in words.
    pub open spec fn spec_message(&self) -> Seq<char> {
        match self {
            Self::RoomNotFoundError(x) => "Room "@ + x@
                + " was not found in the `rooms:` section of the config."@,
            Self::PDOIndexOutOfBounds(x) => "PDO Index "@ + decimal(*x as nat)
                + " is not within 1-64"@,
        }
    }

    /// What the error says, in words.
    pub fn message(&self) -> (text: String)
        ensures
            text@ == self.spec_message(),
    {
        match self {
            Self::RoomNotFoundError(x) => String::from_str("Room ").concat(x.as_str()).concat(
                " was not found in the `rooms:` section of the config.",
            ),
            Self::PDOIndexOutOfBounds(x) => String::from_str("PDO Index ").concat(
                decimal_text(*x).as_str(),
            ).concat(" is not within 1-64"),
        }
    }
}

/// Preheat time of a room whose configuration gives none, in minutes.
pub const DEFAULT_PREHEAT_MINUTES: u8 = 30;

/// Preshutdown time of a room whose configuration gives none, in minutes.
pub const DEFAULT_PRESHUTDOWN_MINUTES: u8 = 10;

/// Lowest output index as the configuration writes it.
pub const FIRST_PDO_INDEX: u8 = 1;

/// Highest output index as the configuration writes it.
pub const LAST_PDO_INDEX: u8 = 64;

/// The configuration as it is written down, before rooms are resolved.
pub struct ConfigData {
    pub cmis: Vec<CMIConfigData>,
    pub external_temperature_sensor: ExtTempConfig,
    pub ct: ChurchToolsConfig,
    pub global: GlobalConfig,
    /// The `rooms` section: each room under its name. The section is meant
    /// to hold every name once (`distinct_names`); where a name occurs more
    /// than once, the first entry counts.
    pub rooms: Vec<NamedRoomConfig>,
}

/// The configuration that the loops work with.
pub struct Config {
    pub cmis: Vec<CMIConfig>,
    pub external_temperature_sensor: ExtTempConfig,
    pub ct: ChurchToolsConfig,
    pub global: GlobalConfig,
}

/// A room as the `rooms` section describes it.
#[derive(Debug, Clone, Copy)]
pub struct RoomConfig {
    pub preheat_minutes: Option<u8>,
    pub preshutdown_minutes: Option<u8>,
    pub churchtools_id: i64,
}

/// One entry of the `rooms` section.
#[derive(Debug)]
pub struct NamedRoomConfig {
    pub name: String,
    pub room: RoomConfig,
}

#[derive(Debug)]
pub struct GlobalConfig {
    /// Seconds between two synchronisation passes.
    pub ct_pull_frequency: u64,
    /// Minutes between two actuation cycles.
    pub ta_push_frequency: u64,
    pub log_level: String,
    /// Address that the socket sending to the controllers is bound to.
    pub emiter_bind_addr: String,
}

/// A controller with its rooms resolved.
#[derive(Debug)]
pub struct CMIConfig {
    pub host: String,
    pub our_virtual_can_id: u8,
    pub rooms: Vec<AssociatedRoomConfig>,
}

/// A controller as the configuration writes it.
#[derive(Debug)]
pub struct CMIConfigData {
    pub host: String,
    pub our_virtual_can_id: u8,
    pub rooms: Vec<AssociatedRoomConfigData>,
}

/// A room of a controller as the configuration writes it.
#[derive(Debug)]
pub struct AssociatedRoomConfigData {
    pub name: String,
    /// The output on the controller, counted from 1.
    pub pdo_index: u8,
}

#[derive(Debug)]
pub struct ExtTempConfig {
    /// Address to bind the receiving socket on.
    pub bind_addr: String,
    /// Node id to expect; readings of other nodes are ignored.
    pub can_id: u8,
    /// Output index to expect; readings of other outputs are ignored.
    pub pdo_index: u8,
    /// Minutes after which a reading is no longer trusted.
    pub timeout: u8,
}

pub struct ChurchToolsConfig {
    pub host: String,
    pub login_token: String,
}

/// Whether `i` is the first entry of `rooms` under `name`.
pub open spec fn is_first_named(rooms: Seq<NamedRoomConfig>, name: Seq<char>, i: int) -> bool {
    &&& 0 <= i < rooms.len()
    &&& rooms[i].name@ == name
    &&& forall|j: int| 0 <= j < i ==> (#[trigger] rooms[j]).name@ != name
}

/// The room that the `rooms` section holds under `name`.
pub open spec fn find_room(rooms: Seq<NamedRoomConfig>, name: Seq<char>) -> Option<RoomConfig> {
    if exists|i: int| is_first_named(rooms, name, i) {
        Some(rooms[choose|i: int| is_first_named(rooms, name, i)].room)
    } else {
        None
    }
}

/// Whether an output index, as the configuration writes it, is allowed.
pub open spec fn pdo_index_allowed(pdo_index: u8) -> bool {
    FIRST_PDO_INDEX <= pdo_index <= LAST_PDO_INDEX
}

/// What a room of a controller resolves to: the room of that name with the
/// defaults filled in and the output index counted from 0, or the reason why
/// it cannot be used. A missing room is reported before a bad index.
pub open spec fn resolved_room(
    rooms: Seq<NamedRoomConfig>,
    data: AssociatedRoomConfigData,
) -> Result<AssociatedRoomConfig, CreateConfigError> {
    match find_room(rooms, data.name@) {
        None => Err(CreateConfigError::RoomNotFoundError(data.name)),
        Some(room) => if pdo_index_allowed(data.pdo_index) {
            Ok(
                AssociatedRoomConfig {
                    churchtools_id: room.churchtools_id,
                    pdo_index: (data.pdo_index - 1) as u8,
                    preheat_minutes: match room.preheat_minutes {
                        Some(m) => m,
                        None => DEFAULT_PREHEAT_MINUTES,
                    },
                    preshutdown_minutes: match room.preshutdown_minutes {
                        Some(m) => m,
                        None => DEFAULT_PRESHUTDOWN_MINUTES,
                    },
                },
            )
        } else {
            Err(CreateConfigError::PDOIndexOutOfBounds(data.pdo_index))
        },
    }
}

/// Whether `e` is the error of the first room in `data` that does not resolve.
pub open spec fn first_room_error(
    rooms: Seq<NamedRoomConfig>,
    data: Seq<AssociatedRoomConfigData>,
    e: CreateConfigError,
) -> bool {
    exists|i: int|
        {
            &&& 0 <= i < data.len()
            &&& #[trigger] resolved_room(rooms, data[i]) == Err::<AssociatedRoomConfig, _>(e)
            &&& forall|j: int| 0 <= j < i ==> (#[trigger] resolved_room(rooms, data[j])) is Ok
        }
}

/// Whether `out` holds, in order, what the rooms in `data` resolve to.
pub open spec fn rooms_resolved(
    rooms: Seq<NamedRoomConfig>,
    data: Seq<AssociatedRoomConfigData>,
    out: Seq<AssociatedRoomConfig>,
) -> bool {
    &&& out.len() == data.len()
    &&& forall|j: int|
        0 <= j < data.len() ==> (#[trigger] resolved_room(rooms, data[j])) == Ok::<
            _,
            CreateConfigError,
        >(out[j])
}

/// Whether every room of the controller resolves.
pub open spec fn cmi_resolves(rooms: Seq<NamedRoomConfig>, data: CMIConfigData) -> bool {
    forall|j: int| 0 <= j < data.rooms@.len() ==> (#[trigger] resolved_room(rooms, data.rooms@[j])) is Ok
}

/// Whether `out` is the controller `data` with its rooms resolved.
pub open spec fn cmi_resolved(
    rooms: Seq<NamedRoomConfig>,
    data: CMIConfigData,
    out: CMIConfig,
) -> bool {
    &&& out.host@ == data.host@
    &&& out.our_virtual_can_id == data.our_virtual_can_id
    &&& rooms_resolved(rooms, data.rooms@, out.rooms@)
}

/// Whether `e` is the error of the first room, taking the controllers and
/// their rooms in order, that does not resolve.
pub open spec fn first_cmi_error(
    rooms: Seq<NamedRoomConfig>,
    cmis: Seq<CMIConfigData>,
    e: CreateConfigError,
) -> bool {
    exists|i: int|
        {
            &&& 0 <= i < cmis.len()
            &&& #[trigger] first_room_error(rooms, cmis[i].rooms@, e)
            &&& forall|k: int| 0 <= k < i ==> #[trigger] cmi_resolves(rooms, cmis[k])
        }
}

impl GlobalConfig {
    /// The seconds between two actuation cycles: the configured minutes
    /// times 60, or the largest number where that is more.
    pub open spec fn spec_ta_push_period_seconds(&self) -> int {
        if self.ta_push_frequency * 60 > u64::MAX {
            u64::MAX as int
        } else {
            self.ta_push_frequency * 60
        }
    }

    /// The seconds between two actuation cycles.
    pub fn ta_push_period_seconds(&self) -> (seconds: u64)
        ensures
            seconds == self.spec_ta_push_period_seconds(),
    {
        if self.ta_push_frequency > u64::MAX / 60 {
            u64::MAX
        } else {
            self.ta_push_frequency * 60
        }
    }
}

impl ExtTempConfig {
    /// The seconds after which a reading is no longer trusted.
    pub fn timeout_seconds(&self) -> (seconds: u64)
        ensures
            seconds == 60 * self.timeout,
    {
        60 * (self.timeout as u64)
    }
}

impl ConfigData {
    /// Whether the configuration can be used: every room that a controller
    /// names exists, and every output index lies within 1-64.
    pub open spec fn usable(&self) -> bool {
        &&& forall|i: int| 0 <= i < self.cmis@.len() ==> #[trigger] cmi_resolves(self.rooms@, self.cmis@[i])
        &&& pdo_index_allowed(self.external_temperature_sensor.pdo_index)
    }
}

impl Config {
    /// Resolves the rooms of every controller against the `rooms` section and
    /// turns the output indices, which the configuration counts from 1, into
    /// the zero-based ones of the wire.
    ///
    /// Fails with the error of the first room that does not resolve, the
    /// controllers and their rooms taken in order; if all resolve, with the
    /// temperature sensor's output index where that is out of bounds.
    pub fn from_config_data(cd: ConfigData) -> (result: Result<Config, CreateConfigError>)
        ensures
            result is Ok <==> cd.usable(),
            match result {
                Ok(config) => {
                    &&& config.cmis@.len() == cd.cmis@.len()
                    &&& forall|i: int|
                        0 <= i < cd.cmis@.len() ==> cmi_resolved(
                            cd.rooms@,
                            #[trigger] cd.cmis@[i],
                            config.cmis@[i],
                        )
                    &&& config.external_temperature_sensor.bind_addr@
                        == cd.external_temperature_sensor.bind_addr@
                    &&& config.external_temperature_sensor.can_id
                        == cd.external_temperature_sensor.can_id
                    &&& config.external_temperature_sensor.pdo_index
                        == cd.external_temperature_sensor.pdo_index - 1
                    &&& config.external_temperature_sensor.timeout
                        == cd.external_temperature_sensor.timeout
                    &&& config.ct == cd.ct
                    &&& config.global == cd.global
                },
                Err(e) => {
                    ||| first_cmi_error(cd.rooms@, cd.cmis@, e)
                    ||| {
                        &&& forall|i: int|
                            0 <= i < cd.cmis@.len() ==> #[trigger] cmi_resolves(
                                cd.rooms@,
                                cd.cmis@[i],
                            )
                        &&& e == CreateConfigError::PDOIndexOutOfBounds(
                            cd.external_temperature_sensor.pdo_index,
                        )
                    }
                },
            },
    {
        let mut cmis: Vec<CMIConfig> = Vec::new();
        let mut i: usize = 0;
        while i < cd.cmis.len()
            invariant
                i <= cd.cmis@.len(),
                cmis@.len() == i,
                forall|k: int| 0 <= k < i ==> cmi_resolved(cd.rooms@, #[trigger] cd.cmis@[k], cmis@[k]),
                forall|k: int| 0 <= k < i ==> #[trigger] cmi_resolves(cd.rooms@, cd.cmis@[k]),
            decreases cd.cmis@.len() - i,
        {
            let cmi = &cd.cmis[i];
            match resolve_rooms(&cd.rooms, &cmi.rooms) {
                Ok(rooms) => {
                    cmis.push(
                        CMIConfig {
                            host: cmi.host.clone(),
                            our_virtual_can_id: cmi.our_virtual_can_id,
                            rooms,
                        },
                    );
                },
                Err(e) => {
                    assert(first_room_error(cd.rooms@, cd.cmis@[i as int].rooms@, e));
                    assert(!cmi_resolves(cd.rooms@, cd.cmis@[i as int]));
                    return Err(e);
                },
            }
            i += 1;
        }
        let sensor_index: u8 = cd.external_temperature_sensor.pdo_index;
        if !(FIRST_PDO_INDEX <= sensor_index && sensor_index <= LAST_PDO_INDEX) {
            return Err(CreateConfigError::PDOIndexOutOfBounds(sensor_index));
        }
        let ext_temp_config = ExtTempConfig {
            bind_addr: cd.external_temperature_sensor.bind_addr,
            can_id: cd.external_temperature_sensor.can_id,
            pdo_index: sensor_index - 1,
            timeout: cd.external_temperature_sensor.timeout,
        };
        Ok(Config { cmis, external_temperature_sensor: ext_temp_config, ct: cd.ct, global: cd.global })
    }
}

/// The index of the first entry of `rooms` under `name`.
pub fn lookup_room(rooms: &Vec<NamedRoomConfig>, name: &String) -> (found: Option<usize>)
    ensures
        match found {
            Some(i) => is_first_named(rooms@, name@, i as int) && find_room(rooms@, name@) == Some(
                rooms@[i as int].room,
            ),
            None => find_room(rooms@, name@) is None,
        },
{
    let mut i: usize = 0;
    while i < rooms.len()
        invariant
            i <= rooms@.len(),
            forall|j: int| 0 <= j < i ==> (#[trigger] rooms@[j]).name@ != name@,
        decreases rooms@.len() - i,
    {
        if rooms[i].name == *name {
            proof {
                lemma_first_named_unique(rooms@, name@, i as int);
            }
            return Some(i);
        }
        i += 1;
    }
    None
}

/// Whether no two entries of the `rooms` section have the same name.
pub open spec fn distinct_names(rooms: Seq<NamedRoomConfig>) -> bool {
    forall|i: int, j: int|
        0 <= i < j < rooms.len() ==> (#[trigger] rooms[i]).name@ != (#[trigger] rooms[j]).name@
}

/// Where no two entries have the same name, every entry is found under its
/// name.
pub proof fn lemma_distinct_names_are_found(rooms: Seq<NamedRoomConfig>, i: int)
    requires
        distinct_names(rooms),
        0 <= i < rooms.len(),
    ensures
        find_room(rooms, rooms[i].name@) == Some(rooms[i].room),
{
    assert(is_first_named(rooms, rooms[i].name@, i));
    lemma_first_named_unique(rooms, rooms[i].name@, i);
}

/// At most one entry is the first under a name.
pub proof fn lemma_first_named_unique(rooms: Seq<NamedRoomConfig>, name: Seq<char>, i: int)
    requires
        is_first_named(rooms, name, i),
    ensures
        forall|k: int| is_first_named(rooms, name, k) ==> k == i,
        find_room(rooms, name) == Some(rooms[i].room),
{
    assert forall|k: int| is_first_named(rooms, name, k) implies k == i by {
        if k < i {
            assert(rooms[k].name@ != name);
        } else if i < k {
            assert(rooms[i].name@ != name);
        }
    }
}

/// Resolves one room of a controller against the `rooms` section.
pub fn resolve_room(rooms: &Vec<NamedRoomConfig>, data: &AssociatedRoomConfigData) -> (result:
    Result<AssociatedRoomConfig, CreateConfigError>)
    ensures
        result == resolved_room(rooms@, *data),
{
    match lookup_room(rooms, &data.name) {
        None => Err(CreateConfigError::RoomNotFoundError(data.name.clone())),
        Some(i) => {
            let room_data = &rooms[i].room;
            if FIRST_PDO_INDEX <= data.pdo_index && data.pdo_index <= LAST_PDO_INDEX {
                Ok(
                    AssociatedRoomConfig {
                        churchtools_id: room_data.churchtools_id,
                        pdo_index: data.pdo_index - 1,
                        preheat_minutes: match room_data.preheat_minutes {
                            Some(m) => m,
                            None => DEFAULT_PREHEAT_MINUTES,
                        },
                        preshutdown_minutes: match room_data.preshutdown_minutes {
                            Some(m) => m,
                            None => DEFAULT_PRESHUTDOWN_MINUTES,
                        },
                    },
                )
            } else {
                Err(CreateConfigError::PDOIndexOutOfBounds(data.pdo_index))
            }
        },
    }
}

/// Resolves the rooms of one controller, in order, and stops at the first
/// that does not resolve.
pub fn resolve_rooms(rooms: &Vec<NamedRoomConfig>, data: &Vec<AssociatedRoomConfigData>) -> (result:
    Result<Vec<AssociatedRoomConfig>, CreateConfigError>)
    ensures
        match result {
            Ok(out) => rooms_resolved(rooms@, data@, out@),
            Err(e) => first_room_error(rooms@, data@, e),
        },
{
    let mut out: Vec<AssociatedRoomConfig> = Vec::new();
    let mut i: usize = 0;
    while i < data.len()
        invariant
            i <= data@.len(),
            out@.len() == i,
            forall|j: int|
                0 <= j < i ==> (#[trigger] resolved_room(rooms@, data@[j])) == Ok::<
                    _,
                    CreateConfigError,
                >(out@[j]),
        decreases data@.len() - i,
    {
        match resolve_room(rooms, &data[i]) {
            Ok(room) => {
                out.push(room);
            },
            Err(e) => {
                return Err(e);
            },
        }
        i += 1;
    }
    Ok(out)
}

/// Lowest ambient temperature, in tenths of a degree Centigrade, that the
/// schedule tells apart; anything colder counts as this.
pub const COLDEST_TENTHS: i32 = -100;

/// Highest ambient temperature, in tenths of a degree Centigrade, that the
/// schedule tells apart; anything warmer counts as this.
pub const WARMEST_TENTHS: i32 = 200;

/// The ambient temperature brought into `[COLDEST_TENTHS, WARMEST_TENTHS]`.
pub open spec fn clamped_tenths(t: int) -> int {
    if t < COLDEST_TENTHS {
        COLDEST_TENTHS as int
    } else if t > WARMEST_TENTHS {
        WARMEST_TENTHS as int
    } else {
        t
    }
}

/// `base * part / 300`, rounded to the nearest integer, a half rounding up.
/// `part` is a share of the span of 300 tenths between the coldest and the
/// warmest temperature.
pub open spec fn scaled_minutes(base: int, part: int) -> int {
    (base * part + 150) / 300
}

/// One room of a controller, resolved against the `rooms` section.
#[derive(Debug)]
pub struct AssociatedRoomConfig {
    /// The id of the room's resource in the scheduling service.
    pub churchtools_id: i64,
    /// The output on the controller, zero-based as on the wire.
    pub pdo_index: u8,
    /// Minutes of heating before a booking starts, at the coldest temperature.
    pub preheat_minutes: u8,
    /// Minutes by which heating may stop before a booking ends, at the
    /// warmest temperature.
    pub preshutdown_minutes: u8,
}

impl AssociatedRoomConfig {
    /// Minutes of heating before a booking starts: the whole base time when
    /// the temperature is unknown, else the base time scaled by how far the
    /// clamped temperature lies below the warmest one.
    pub open spec fn spec_preheat_time(&self, external_temp: Option<i32>) -> int {
        match external_temp {
            Some(x) => scaled_minutes(
                self.preheat_minutes as int,
                WARMEST_TENTHS - clamped_tenths(x as int),
            ),
            None => self.preheat_minutes as int,
        }
    }

    /// Minutes by which heating stops before a booking ends: none when the
    /// temperature is unknown, else the base time scaled by how far the
    /// clamped temperature lies above the coldest one.
    pub open spec fn spec_preshutdown_time(&self, external_temp: Option<i32>) -> int {
        match external_temp {
            Some(x) => scaled_minutes(
                self.preshutdown_minutes as int,
                clamped_tenths(x as int) - COLDEST_TENTHS,
            ),
            None => 0,
        }
    }

    /// The number of minutes a room is heated before a booking starts.
    /// `external_temp` is in tenths of a degree Centigrade.
    pub fn preheat_time(&self, external_temp: Option<i32>) -> (minutes: u8)
        ensures
            minutes == self.spec_preheat_time(external_temp),
            minutes <= self.preheat_minutes,
    {
        match external_temp {
            Some(x) => {
                let clamped: i32 = clamp_tenths(x);
                scale_minutes(self.preheat_minutes, (WARMEST_TENTHS - clamped) as u32)
            },
            None => self.preheat_minutes,
        }
    }

    /// The number of minutes by which a room's heating stops before a booking
    /// ends. `external_temp` is in tenths of a degree Centigrade. Without a
    /// known temperature heating never stops early.
    pub fn preshutdown_time(&self, external_temp: Option<i32>) -> (minutes: u8)
        ensures
            minutes == self.spec_preshutdown_time(external_temp),
            minutes <= self.preshutdown_minutes,
    {
        match external_temp {
            Some(x) => {
                let clamped: i32 = clamp_tenths(x);
                scale_minutes(self.preshutdown_minutes, (clamped - COLDEST_TENTHS) as u32)
            },
            None => 0,
        }
    }

    /// The instant at which heating for a booking that starts at `start` begins.
    pub open spec fn heating_start(&self, start: int, external_temp: Option<i32>) -> int {
        start - 60 * self.spec_preheat_time(external_temp)
    }

    /// The instant at which heating for a booking that ends at `end` may stop.
    pub open spec fn heating_stop(&self, end: int, external_temp: Option<i32>) -> int {
        end - 60 * self.spec_preshutdown_time(external_temp)
    }

    /// Applies both the preheat and the preshutdown time of this room to a
    /// booking's interval and returns the instants at which heating has to
    /// start and may stop.
    pub fn apply_preheat_and_preshutdown(
        &self,
        start: i64,
        end: i64,
        external_temp: Option<i32>,
    ) -> (adapted: (i64, i64))
        requires
            self.heating_start(start as int, external_temp) >= i64::MIN,
            self.heating_stop(end as int, external_temp) >= i64::MIN,
        ensures
            adapted.0 == self.heating_start(start as int, external_temp),
            adapted.1 == self.heating_stop(end as int, external_temp),
    {
        let lead: i64 = 60 * (self.preheat_time(external_temp) as i64);
        let lag: i64 = 60 * (self.preshutdown_time(external_temp) as i64);
        (start - lead, end - lag)
    }
}

/// Brings a temperature into the range that the schedule tells apart.
pub fn clamp_tenths(t: i32) -> (c: i32)
    ensures
        c == clamped_tenths(t as int),
        COLDEST_TENTHS <= c <= WARMEST_TENTHS,
{
    if t < COLDEST_TENTHS {
        COLDEST_TENTHS
    } else if t > WARMEST_TENTHS {
        WARMEST_TENTHS
    } else {
        t
    }
}

/// `base * part / 300` rounded to the nearest minute, a half rounding up.
pub fn scale_minutes(base: u8, part: u32) -> (minutes: u8)
    requires
        part <= 300,
    ensures
        minutes == scaled_minutes(base as int, part as int),
        minutes <= base,
{
    proof {
        lemma_scaled_minutes_nearest(base as int, part as int);
    }
    let product: u32 = (base as u32) * part;
    let rounded: u32 = (product + 150) / 300;
    rounded as u8
}

/// `scaled_minutes(base, part)` is the integer nearest to `base * part / 300`,
/// the upper one of two that are equally near, and lies between 0 and `base`.
pub proof fn lemma_scaled_minutes_nearest(base: int, part: int)
    requires
        0 <= base,
        0 <= part <= 300,
    ensures
        0 <= base * part <= base * 300,
        0 <= scaled_minutes(base, part) <= base,
        300 * scaled_minutes(base, part) - 150 <= base * part,
        base * part < 300 * scaled_minutes(base, part) + 150,
{
    assert(0 <= base * part <= base * 300) by (nonlinear_arith)
        requires
            0 <= base,
            0 <= part <= 300,
    ;
}

/// Scaling by a larger part gives no fewer minutes.
pub proof fn lemma_scaled_minutes_monotonic(base: int, smaller: int, larger: int)
    requires
        0 <= base,
        0 <= smaller <= larger,
    ensures
        scaled_minutes(base, smaller) <= scaled_minutes(base, larger),
{
    assert(base * smaller <= base * larger) by (nonlinear_arith)
        requires
            0 <= base,
            0 <= smaller <= larger,
    ;
}

/// Colder means longer preheat and less preshutdown; and an unknown
/// temperature is treated like the coldest one.
pub proof fn lemma_colder_heats_longer(room: AssociatedRoomConfig, colder: i32, warmer: i32)
    requires
        colder <= warmer,
    ensures
        room.spec_preheat_time(Some(colder)) >= room.spec_preheat_time(Some(warmer)),
        room.spec_preshutdown_time(Some(colder)) <= room.spec_preshutdown_time(Some(warmer)),
        room.spec_preheat_time(None) >= room.spec_preheat_time(Some(colder)),
        room.spec_preshutdown_time(None) <= room.spec_preshutdown_time(Some(colder)),
        room.spec_preheat_time(None) == room.spec_preheat_time(Some(COLDEST_TENTHS)),
        room.spec_preshutdown_time(None) == room.spec_preshutdown_time(Some(COLDEST_TENTHS)),
{
    let c = clamped_tenths(colder as int);
    let w = clamped_tenths(warmer as int);
    lemma_scaled_minutes_monotonic(room.preheat_minutes as int, WARMEST_TENTHS - w, WARMEST_TENTHS - c);
    lemma_scaled_minutes_monotonic(
        room.preshutdown_minutes as int,
        c - COLDEST_TENTHS,
        w - COLDEST_TENTHS,
    );
    lemma_scaled_minutes_nearest(room.preheat_minutes as int, WARMEST_TENTHS - c);
    lemma_scaled_minutes_nearest(room.preshutdown_minutes as int, c - COLDEST_TENTHS);
    assert(room.preheat_minutes * 300 == 300 * room.preheat_minutes) by (nonlinear_arith);
    assert(room.preshutdown_minutes * 0 == 0) by (nonlinear_arith);
}

} // verus!
