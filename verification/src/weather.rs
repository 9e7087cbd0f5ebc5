//! Weather safety: the ASCOM ObservingConditions property names, the store
//! of the latest observations per station, the safety check of a weather
//! device against its thresholds, and the manager of the weather monitors.

use vstd::prelude::*;
use crate::config::WeatherDataSource;
use crate::hold::{elapsed_seconds, elapsed_u64, hold_elapsed, HoldState};
use crate::monitors::opt_view;
use crate::text::{decimal_digits, decimal_string, same_text};

verus! {

/// The ASCOM ObservingConditions property names.
pub struct ObservingConditionsProperties;

impl ObservingConditionsProperties {
    pub const CLOUD_COVER: &'static str = "CloudCover";
    pub const DEW_POINT: &'static str = "DewPoint";
    pub const HUMIDITY: &'static str = "Humidity";
    pub const PRESSURE: &'static str = "Pressure";
    pub const RAIN_RATE: &'static str = "RainRate";
    pub const SKY_BRIGHTNESS: &'static str = "SkyBrightness";
    pub const SKY_QUALITY: &'static str = "SkyQuality";
    pub const SKY_TEMPERATURE: &'static str = "SkyTemperature";
    pub const STAR_FWHM: &'static str = "StarFWHM";
    pub const TEMPERATURE: &'static str = "Temperature";
    pub const WIND_DIRECTION: &'static str = "WindDirection";
    pub const WIND_GUST: &'static str = "WindGust";
    pub const WIND_SPEED: &'static str = "WindSpeed";

    /// Every ObservingConditions property, in the order `all` lists them.
    pub open spec fn all_names() -> Seq<Seq<char>> {
        seq![
            "CloudCover"@,
            "DewPoint"@,
            "Humidity"@,
            "Pressure"@,
            "RainRate"@,
            "SkyBrightness"@,
            "SkyQuality"@,
            "SkyTemperature"@,
            "StarFWHM"@,
            "Temperature"@,
            "WindDirection"@,
            "WindGust"@,
            "WindSpeed"@,
        ]
    }

    /// The properties a Tempest station provides, in the order
    /// `tempest_supported` lists them.
    pub open spec fn tempest_names() -> Seq<Seq<char>> {
        seq![
            "DewPoint"@,
            "Humidity"@,
            "Pressure"@,
            "RainRate"@,
            "SkyBrightness"@,
            "Temperature"@,
            "WindDirection"@,
            "WindGust"@,
            "WindSpeed"@,
        ]
    }

    /// All ObservingConditions property names.
    pub fn all() -> (r: Vec<&'static str>)
        ensures
            r@.len() == Self::all_names().len(),
            forall|i: int| 0 <= i < r@.len() ==> #[trigger] r@[i]@ == Self::all_names()[i],
    {
        let mut v: Vec<&'static str> = Vec::new();
        v.push(Self::CLOUD_COVER);
        v.push(Self::DEW_POINT);
        v.push(Self::HUMIDITY);
        v.push(Self::PRESSURE);
        v.push(Self::RAIN_RATE);
        v.push(Self::SKY_BRIGHTNESS);
        v.push(Self::SKY_QUALITY);
        v.push(Self::SKY_TEMPERATURE);
        v.push(Self::STAR_FWHM);
        v.push(Self::TEMPERATURE);
        v.push(Self::WIND_DIRECTION);
        v.push(Self::WIND_GUST);
        v.push(Self::WIND_SPEED);
        v
    }

    /// The property names a Tempest station supports.
    pub fn tempest_supported() -> (r: Vec<&'static str>)
        ensures
            r@.len() == Self::tempest_names().len(),
            forall|i: int| 0 <= i < r@.len() ==> #[trigger] r@[i]@ == Self::tempest_names()[i],
    {
        let mut v: Vec<&'static str> = Vec::new();
        v.push(Self::DEW_POINT);
        v.push(Self::HUMIDITY);
        v.push(Self::PRESSURE);
        v.push(Self::RAIN_RATE);
        v.push(Self::SKY_BRIGHTNESS);
        v.push(Self::TEMPERATURE);
        v.push(Self::WIND_DIRECTION);
        v.push(Self::WIND_GUST);
        v.push(Self::WIND_SPEED);
        v
    }
}

/// The description of the sensor behind a property.
pub open spec fn sensor_description(property: Seq<char>) -> Seq<char> {
    if property == "DewPoint"@ {
        "Dew point calculated from temperature and humidity using Magnus formula"@
    } else if property == "Humidity"@ {
        "Relative humidity from Tempest weather station"@
    } else if property == "Pressure"@ {
        "Atmospheric pressure from Tempest weather station"@
    } else if property == "RainRate"@ {
        "Rain rate calculated from precipitation accumulation"@
    } else if property == "SkyBrightness"@ {
        "Sky brightness derived from illuminance sensor"@
    } else if property == "Temperature"@ {
        "Ambient air temperature from Tempest weather station"@
    } else if property == "WindDirection"@ {
        "Wind direction from Tempest weather station"@
    } else if property == "WindGust"@ {
        "Maximum wind gust from Tempest weather station"@
    } else if property == "WindSpeed"@ {
        "Average wind speed from Tempest weather station"@
    } else {
        "Property '"@ + property + "' not supported"@
    }
}

/// Describes the sensor behind an ObservingConditions property.
pub fn get_sensor_description(property: &str) -> (r: String)
    ensures
        r@ == sensor_description(property@),
{
    if same_text(property, ObservingConditionsProperties::DEW_POINT) {
        "Dew point calculated from temperature and humidity using Magnus formula".to_owned()
    } else if same_text(property, ObservingConditionsProperties::HUMIDITY) {
        "Relative humidity from Tempest weather station".to_owned()
    } else if same_text(property, ObservingConditionsProperties::PRESSURE) {
        "Atmospheric pressure from Tempest weather station".to_owned()
    } else if same_text(property, ObservingConditionsProperties::RAIN_RATE) {
        "Rain rate calculated from precipitation accumulation".to_owned()
    } else if same_text(property, ObservingConditionsProperties::SKY_BRIGHTNESS) {
        "Sky brightness derived from illuminance sensor".to_owned()
    } else if same_text(property, ObservingConditionsProperties::TEMPERATURE) {
        "Ambient air temperature from Tempest weather station".to_owned()
    } else if same_text(property, ObservingConditionsProperties::WIND_DIRECTION) {
        "Wind direction from Tempest weather station".to_owned()
    } else if same_text(property, ObservingConditionsProperties::WIND_GUST) {
        "Maximum wind gust from Tempest weather station".to_owned()
    } else if same_text(property, ObservingConditionsProperties::WIND_SPEED) {
        "Average wind speed from Tempest weather station".to_owned()
    } else {
        let mut s = "Property '".to_owned();
        s.append(property);
        s.append("' not supported");
        s
    }
}

/// Whether a Tempest station provides the property.
pub fn is_property_supported(property: &str) -> (r: bool)
    ensures
        r == ObservingConditionsProperties::tempest_names().contains(property@),
{
    let names = ObservingConditionsProperties::tempest_supported();
    let mut i: usize = 0;
    while i < names.len()
        invariant
            i <= names@.len(),
            names@.len() == ObservingConditionsProperties::tempest_names().len(),
            forall|j: int| 0 <= j < names@.len() ==> #[trigger] names@[j]@ == ObservingConditionsProperties::tempest_names()[j],
            forall|j: int| 0 <= j < i ==> ObservingConditionsProperties::tempest_names()[j] != property@,
        decreases names@.len() - i,
    {
        if same_text(names[i], property) {
            assert(ObservingConditionsProperties::tempest_names()[i as int] == property@);
            return true;
        }
        i = i + 1;
    }
    false
}

/// A property's description says it is not supported exactly when a
/// Tempest station does not provide it, and the supported properties have
/// distinct descriptions.
pub proof fn lemma_sensor_descriptions(p: Seq<char>, q: Seq<char>)
    ensures
        (sensor_description(p) == "Property '"@ + p + "' not supported"@)
            <==> !ObservingConditionsProperties::tempest_names().contains(p),
        ObservingConditionsProperties::tempest_names().contains(p) && ObservingConditionsProperties::tempest_names().contains(q)
            && p != q ==> sensor_description(p) != sensor_description(q),
{
    reveal_strlit("DewPoint");
    reveal_strlit("Humidity");
    reveal_strlit("Pressure");
    reveal_strlit("RainRate");
    reveal_strlit("SkyBrightness");
    reveal_strlit("Temperature");
    reveal_strlit("WindDirection");
    reveal_strlit("WindGust");
    reveal_strlit("WindSpeed");
    reveal_strlit("Dew point calculated from temperature and humidity using Magnus formula");
    reveal_strlit("Relative humidity from Tempest weather station");
    reveal_strlit("Atmospheric pressure from Tempest weather station");
    reveal_strlit("Rain rate calculated from precipitation accumulation");
    reveal_strlit("Sky brightness derived from illuminance sensor");
    reveal_strlit("Ambient air temperature from Tempest weather station");
    reveal_strlit("Wind direction from Tempest weather station");
    reveal_strlit("Maximum wind gust from Tempest weather station");
    reveal_strlit("Average wind speed from Tempest weather station");
    reveal_strlit("Property '");
    reveal_strlit("' not supported");
    assert("DewPoint"@[0] != "Humidity"@[0]);
    assert("DewPoint"@[0] != "Pressure"@[0]);
    assert("DewPoint"@[0] != "RainRate"@[0]);
    assert("DewPoint"@.len() != "SkyBrightness"@.len());
    assert("DewPoint"@.len() != "Temperature"@.len());
    assert("DewPoint"@.len() != "WindDirection"@.len());
    assert("DewPoint"@[0] != "WindGust"@[0]);
    assert("DewPoint"@.len() != "WindSpeed"@.len());
    assert("Humidity"@[0] != "Pressure"@[0]);
    assert("Humidity"@[0] != "RainRate"@[0]);
    assert("Humidity"@.len() != "SkyBrightness"@.len());
    assert("Humidity"@.len() != "Temperature"@.len());
    assert("Humidity"@.len() != "WindDirection"@.len());
    assert("Humidity"@[0] != "WindGust"@[0]);
    assert("Humidity"@.len() != "WindSpeed"@.len());
    assert("Pressure"@[0] != "RainRate"@[0]);
    assert("Pressure"@.len() != "SkyBrightness"@.len());
    assert("Pressure"@.len() != "Temperature"@.len());
    assert("Pressure"@.len() != "WindDirection"@.len());
    assert("Pressure"@[0] != "WindGust"@[0]);
    assert("Pressure"@.len() != "WindSpeed"@.len());
    assert("RainRate"@.len() != "SkyBrightness"@.len());
    assert("RainRate"@.len() != "Temperature"@.len());
    assert("RainRate"@.len() != "WindDirection"@.len());
    assert("RainRate"@[0] != "WindGust"@[0]);
    assert("RainRate"@.len() != "WindSpeed"@.len());
    assert("SkyBrightness"@.len() != "Temperature"@.len());
    assert("SkyBrightness"@[0] != "WindDirection"@[0]);
    assert("SkyBrightness"@.len() != "WindGust"@.len());
    assert("SkyBrightness"@.len() != "WindSpeed"@.len());
    assert("Temperature"@.len() != "WindDirection"@.len());
    assert("Temperature"@.len() != "WindGust"@.len());
    assert("Temperature"@.len() != "WindSpeed"@.len());
    assert("WindDirection"@.len() != "WindGust"@.len());
    assert("WindDirection"@.len() != "WindSpeed"@.len());
    assert("WindGust"@.len() != "WindSpeed"@.len());
    let names = ObservingConditionsProperties::tempest_names();
    let unsupported = "Property '"@ + p + "' not supported"@;
    assert(unsupported[0] == 'P');
    if names.contains(p) {
        let i = choose|i: int| 0 <= i < names.len() && names[i] == p;
        assert(sensor_description(p)[0] != 'P');
    } else {
        assert forall|i: int| 0 <= i < names.len() implies names[i] != p by {}
        assert(names[0] != p && names[1] != p && names[2] != p && names[3] != p && names[4] != p);
        assert(names[5] != p && names[6] != p && names[7] != p && names[8] != p);
    }
    if names.contains(p) && names.contains(q) && p != q {
        let i = choose|i: int| 0 <= i < names.len() && names[i] == p;
        let j = choose|j: int| 0 <= j < names.len() && names[j] == q;
        assert(sensor_description(names[0]) == "Dew point calculated from temperature and humidity using Magnus formula"@);
        assert(sensor_description(names[1]) == "Relative humidity from Tempest weather station"@);
        assert(sensor_description(names[2]) == "Atmospheric pressure from Tempest weather station"@);
        assert(sensor_description(names[3]) == "Rain rate calculated from precipitation accumulation"@);
        assert(sensor_description(names[4]) == "Sky brightness derived from illuminance sensor"@);
        assert(sensor_description(names[5]) == "Ambient air temperature from Tempest weather station"@);
        assert(sensor_description(names[6]) == "Wind direction from Tempest weather station"@);
        assert(sensor_description(names[7]) == "Maximum wind gust from Tempest weather station"@);
        assert(sensor_description(names[8]) == "Average wind speed from Tempest weather station"@);
        assert("Dew point calculated from temperature and humidity using Magnus formula"@.len() != "Relative humidity from Tempest weather station"@.len());
        assert("Dew point calculated from temperature and humidity using Magnus formula"@.len() != "Atmospheric pressure from Tempest weather station"@.len());
        assert("Dew point calculated from temperature and humidity using Magnus formula"@.len() != "Rain rate calculated from precipitation accumulation"@.len());
        assert("Dew point calculated from temperature and humidity using Magnus formula"@.len() != "Sky brightness derived from illuminance sensor"@.len());
        assert("Dew point calculated from temperature and humidity using Magnus formula"@.len() != "Ambient air temperature from Tempest weather station"@.len());
        assert("Dew point calculated from temperature and humidity using Magnus formula"@.len() != "Wind direction from Tempest weather station"@.len());
        assert("Dew point calculated from temperature and humidity using Magnus formula"@.len() != "Maximum wind gust from Tempest weather station"@.len());
        assert("Dew point calculated from temperature and humidity using Magnus formula"@.len() != "Average wind speed from Tempest weather station"@.len());
        assert("Relative humidity from Tempest weather station"@.len() != "Atmospheric pressure from Tempest weather station"@.len());
        assert("Relative humidity from Tempest weather station"@.len() != "Rain rate calculated from precipitation accumulation"@.len());
        assert("Relative humidity from Tempest weather station"@[0] != "Sky brightness derived from illuminance sensor"@[0]);
        assert("Relative humidity from Tempest weather station"@.len() != "Ambient air temperature from Tempest weather station"@.len());
        assert("Relative humidity from Tempest weather station"@.len() != "Wind direction from Tempest weather station"@.len());
        assert("Relative humidity from Tempest weather station"@[0] != "Maximum wind gust from Tempest weather station"@[0]);
        assert("Relative humidity from Tempest weather station"@.len() != "Average wind speed from Tempest weather station"@.len());
        assert("Atmospheric pressure from Tempest weather station"@.len() != "Rain rate calculated from precipitation accumulation"@.len());
        assert("Atmospheric pressure from Tempest weather station"@.len() != "Sky brightness derived from illuminance sensor"@.len());
        assert("Atmospheric pressure from Tempest weather station"@.len() != "Ambient air temperature from Tempest weather station"@.len());
        assert("Atmospheric pressure from Tempest weather station"@.len() != "Wind direction from Tempest weather station"@.len());
        assert("Atmospheric pressure from Tempest weather station"@.len() != "Maximum wind gust from Tempest weather station"@.len());
        assert("Atmospheric pressure from Tempest weather station"@.len() != "Average wind speed from Tempest weather station"@.len());
        assert("Rain rate calculated from precipitation accumulation"@.len() != "Sky brightness derived from illuminance sensor"@.len());
        assert("Rain rate calculated from precipitation accumulation"@[0] != "Ambient air temperature from Tempest weather station"@[0]);
        assert("Rain rate calculated from precipitation accumulation"@.len() != "Wind direction from Tempest weather station"@.len());
        assert("Rain rate calculated from precipitation accumulation"@.len() != "Maximum wind gust from Tempest weather station"@.len());
        assert("Rain rate calculated from precipitation accumulation"@.len() != "Average wind speed from Tempest weather station"@.len());
        assert("Sky brightness derived from illuminance sensor"@.len() != "Ambient air temperature from Tempest weather station"@.len());
        assert("Sky brightness derived from illuminance sensor"@.len() != "Wind direction from Tempest weather station"@.len());
        assert("Sky brightness derived from illuminance sensor"@[0] != "Maximum wind gust from Tempest weather station"@[0]);
        assert("Sky brightness derived from illuminance sensor"@.len() != "Average wind speed from Tempest weather station"@.len());
        assert("Ambient air temperature from Tempest weather station"@.len() != "Wind direction from Tempest weather station"@.len());
        assert("Ambient air temperature from Tempest weather station"@.len() != "Maximum wind gust from Tempest weather station"@.len());
        assert("Ambient air temperature from Tempest weather station"@.len() != "Average wind speed from Tempest weather station"@.len());
        assert("Wind direction from Tempest weather station"@.len() != "Maximum wind gust from Tempest weather station"@.len());
        assert("Wind direction from Tempest weather station"@.len() != "Average wind speed from Tempest weather station"@.len());
        assert("Maximum wind gust from Tempest weather station"@.len() != "Average wind speed from Tempest weather station"@.len());
        assert(sensor_description(p) != sensor_description(q));
    }
}

/// The latest observation of one station, and the one before it.
pub struct ObservationSlot<T> {
    pub serial_number: String,
    pub current: T,
    pub previous: Option<T>,
}

/// The latest observations, per station serial number, in the order the
/// stations were first heard from.
pub struct ObservationStore<T> {
    pub slots: Vec<ObservationSlot<T>>,
}

/// The first slot of the station `serial`.
pub open spec fn find_slot<T>(slots: Seq<ObservationSlot<T>>, serial: Seq<char>) -> Option<int>
    decreases slots.len(),
{
    if slots.len() == 0 {
        None
    } else {
        match find_slot(slots.drop_last(), serial) {
            Some(i) => Some(i),
            None => if slots.last().serial_number@ == serial {
                Some(slots.len() - 1)
            } else {
                None
            },
        }
    }
}

/// `find_slot` gives the first slot of the station, if any.
pub proof fn lemma_find_slot<T>(slots: Seq<ObservationSlot<T>>, serial: Seq<char>)
    ensures
        match find_slot(slots, serial) {
            Some(i) => 0 <= i < slots.len() && slots[i].serial_number@ == serial && forall|j: int|
                0 <= j < i ==> slots[j].serial_number@ != serial,
            None => forall|j: int| 0 <= j < slots.len() ==> slots[j].serial_number@ != serial,
        },
    decreases slots.len(),
{
    if slots.len() > 0 {
        let d = slots.drop_last();
        lemma_find_slot(d, serial);
        assert(forall|j: int| 0 <= j < d.len() ==> d[j] == slots[j]);
    }
}

proof fn lemma_find_slot_prefix<T>(slots: Seq<ObservationSlot<T>>, serial: Seq<char>, k: int)
    requires
        0 <= k <= slots.len(),
        find_slot(slots.take(k), serial) is Some,
    ensures
        find_slot(slots, serial) == find_slot(slots.take(k), serial),
    decreases slots.len(),
{
    if k < slots.len() {
        assert(slots.drop_last().take(k) =~= slots.take(k));
        lemma_find_slot_prefix(slots.drop_last(), serial, k);
    } else {
        assert(slots.take(k) =~= slots);
    }
}

fn find_slot_index<T>(slots: &Vec<ObservationSlot<T>>, serial: &str) -> (r: Option<usize>)
    ensures
        match r {
            Some(i) => find_slot(slots@, serial@) == Some(i as int),
            None => find_slot(slots@, serial@) is None,
        },
{
    let mut i: usize = 0;
    while i < slots.len()
        invariant
            i <= slots@.len(),
            find_slot(slots@.take(i as int), serial@) is None,
        decreases slots@.len() - i,
    {
        assert(slots@.take(i + 1).drop_last() =~= slots@.take(i as int));
        if same_text(slots[i].serial_number.as_str(), serial) {
            assert(find_slot(slots@.take(i + 1), serial@) == Some(i as int));
            proof {
                lemma_find_slot_prefix(slots@, serial@, i + 1);
            }
            return Some(i);
        }
        i = i + 1;
    }
    assert(slots@.take(slots@.len() as int) =~= slots@);
    None
}

/// The slot a device reads: the one of its station, or without a serial
/// number the first station heard from.
pub open spec fn selected_slot<T>(slots: Seq<ObservationSlot<T>>, serial: Option<Seq<char>>) -> Option<int> {
    match serial {
        Some(sn) => find_slot(slots, sn),
        None => if slots.len() > 0 {
            Some(0)
        } else {
            None
        },
    }
}

impl<T> ObservationStore<T> {
    pub fn new() -> (r: ObservationStore<T>)
        ensures
            r.slots@.len() == 0,
    {
        ObservationStore { slots: Vec::new() }
    }

    /// Records a new observation of the station `serial_number`; its
    /// latest observation so far becomes the previous one.
    pub fn record(&mut self, serial_number: String, observation: T)
        ensures
            match find_slot(old(self).slots@, serial_number@) {
                Some(i) => final(self).slots@ == old(self).slots@.update(
                    i,
                    ObservationSlot {
                        serial_number: old(self).slots@[i].serial_number,
                        current: observation,
                        previous: Some(old(self).slots@[i].current),
                    },
                ),
                None => final(self).slots@ == old(self).slots@.push(
                    ObservationSlot { serial_number, current: observation, previous: None },
                ),
            },
    {
        proof {
            lemma_find_slot(self.slots@, serial_number@);
        }
        match find_slot_index(&self.slots, serial_number.as_str()) {
            Some(i) => {
                let mut slot = self.slots.remove(i);
                let mut latest = observation;
                std::mem::swap(&mut latest, &mut slot.current);
                slot.previous = Some(latest);
                self.slots.insert(i, slot);
            },
            None => {
                self.slots.push(ObservationSlot { serial_number, current: observation, previous: None });
            },
        }
    }

    /// The latest observation a device reads.
    pub fn current(&self, serial_number: Option<&str>) -> (r: Option<&T>)
        ensures
            match selected_slot(self.slots@, opt_str_view(serial_number)) {
                Some(i) => r == Some(&self.slots@[i].current),
                None => r is None,
            },
    {
        match self.selected_index(serial_number) {
            Some(i) => Some(&self.slots[i].current),
            None => None,
        }
    }

    /// The observation before the latest one a device reads.
    pub fn previous(&self, serial_number: Option<&str>) -> (r: Option<&T>)
        ensures
            match selected_slot(self.slots@, opt_str_view(serial_number)) {
                Some(i) => match self.slots@[i].previous {
                    Some(p) => r == Some(&p),
                    None => r is None,
                },
                None => r is None,
            },
    {
        match self.selected_index(serial_number) {
            Some(i) => match &self.slots[i].previous {
                Some(p) => Some(p),
                None => None,
            },
            None => None,
        }
    }

    fn selected_index(&self, serial_number: Option<&str>) -> (r: Option<usize>)
        ensures
            match r {
                Some(k) => selected_slot(self.slots@, opt_str_view(serial_number)) == Some(k as int) && k
                    < self.slots@.len(),
                None => selected_slot(self.slots@, opt_str_view(serial_number)) is None,
            },
    {
        match serial_number {
            Some(sn) => {
                proof {
                    lemma_find_slot(self.slots@, sn@);
                }
                find_slot_index(&self.slots, sn)
            },
            None => if self.slots.len() > 0 {
                Some(0)
            } else {
                None
            },
        }
    }
}

pub open spec fn opt_str_view(o: Option<&str>) -> Option<Seq<char>> {
    match o {
        Some(s) => Some(s@),
        None => None,
    }
}

/// After an observation of a station is recorded, a device reading that
/// station sees it as the latest observation, and the observation that was
/// latest before as the previous one; the other stations are unchanged.
pub proof fn lemma_record_then_read<T>(before: Seq<ObservationSlot<T>>, after: Seq<ObservationSlot<T>>, serial: Seq<char>, obs: T, other: Seq<char>)
    requires
        match find_slot(before, serial) {
            Some(i) => after == before.update(
                i,
                ObservationSlot {
                    serial_number: before[i].serial_number,
                    current: obs,
                    previous: Some(before[i].current),
                },
            ),
            None => exists|s: String| s@ == serial && after == before.push(
                ObservationSlot { serial_number: s, current: obs, previous: None },
            ),
        },
        other != serial,
    ensures
        find_slot(after, serial) is Some,
        after[find_slot(after, serial)->0].current == obs,
        after[find_slot(after, serial)->0].previous == match find_slot(before, serial) {
            Some(i) => Some(before[i].current),
            None => None,
        },
        match find_slot(before, other) {
            Some(j) => find_slot(after, other) == Some(j) && after[j] == before[j],
            None => find_slot(after, other) is None,
        },
{
    lemma_find_slot(before, serial);
    lemma_find_slot(before, other);
    lemma_find_slot(after, serial);
    lemma_find_slot(after, other);
    match find_slot(before, serial) {
        Some(i) => {
            assert(after.len() == before.len());
            assert(forall|j: int| 0 <= j < after.len() ==> #[trigger] after[j].serial_number@ == before[j].serial_number@);
            lemma_find_slot_same_keys(before, after, serial);
            lemma_find_slot_same_keys(before, after, other);
        },
        None => {
            let s = choose|s: String| s@ == serial && after == before.push(
                ObservationSlot { serial_number: s, current: obs, previous: None },
            );
            assert(after.drop_last() =~= before);
        },
    }
}

proof fn lemma_find_slot_same_keys<T>(a: Seq<ObservationSlot<T>>, b: Seq<ObservationSlot<T>>, serial: Seq<char>)
    requires
        a.len() == b.len(),
        forall|j: int| 0 <= j < a.len() ==> #[trigger] a[j].serial_number@ == b[j].serial_number@,
    ensures
        find_slot(a, serial) == find_slot(b, serial),
    decreases a.len(),
{
    if a.len() > 0 {
        lemma_find_slot_same_keys(a.drop_last(), b.drop_last(), serial);
    }
}

/// The measurements a weather device can hold to a threshold.
#[derive(Clone, Copy, Debug, PartialEq, Eq, Structural)]
pub enum WeatherMeasurement {
    Temperature,
    Humidity,
    SkyBrightness,
    WindSpeed,
    WindGust,
    RainRate,
}

impl WeatherMeasurement {
    /// The name a measurement is listed under.
    pub open spec fn label(self) -> Seq<char> {
        match self {
            WeatherMeasurement::Temperature => "Temperature"@,
            WeatherMeasurement::Humidity => "Humidity"@,
            WeatherMeasurement::SkyBrightness => "Sky Brightness"@,
            WeatherMeasurement::WindSpeed => "Wind Speed"@,
            WeatherMeasurement::WindGust => "Wind Gust"@,
            WeatherMeasurement::RainRate => "Rain Rate"@,
        }
    }

    /// The ObservingConditions property that gives the measured value.
    pub open spec fn property_name(self) -> Seq<char> {
        match self {
            WeatherMeasurement::Temperature => "Temperature"@,
            WeatherMeasurement::Humidity => "Humidity"@,
            WeatherMeasurement::SkyBrightness => "SkyBrightness"@,
            WeatherMeasurement::WindSpeed => "WindSpeed"@,
            WeatherMeasurement::WindGust => "WindGust"@,
            WeatherMeasurement::RainRate => "RainRate"@,
        }
    }

    /// The measurements in the order a device's thresholds are checked.
    pub fn check_order() -> (r: Vec<WeatherMeasurement>)
        ensures
            r@ == seq![
                WeatherMeasurement::Temperature,
                WeatherMeasurement::Humidity,
                WeatherMeasurement::SkyBrightness,
                WeatherMeasurement::WindSpeed,
                WeatherMeasurement::WindGust,
                WeatherMeasurement::RainRate,
            ],
    {
        vec![
            WeatherMeasurement::Temperature,
            WeatherMeasurement::Humidity,
            WeatherMeasurement::SkyBrightness,
            WeatherMeasurement::WindSpeed,
            WeatherMeasurement::WindGust,
            WeatherMeasurement::RainRate,
        ]
    }

    pub fn name(&self) -> (r: &'static str)
        ensures
            r@ == self.label(),
    {
        match self {
            WeatherMeasurement::Temperature => "Temperature",
            WeatherMeasurement::Humidity => "Humidity",
            WeatherMeasurement::SkyBrightness => "Sky Brightness",
            WeatherMeasurement::WindSpeed => "Wind Speed",
            WeatherMeasurement::WindGust => "Wind Gust",
            WeatherMeasurement::RainRate => "Rain Rate",
        }
    }

    pub fn property(&self) -> (r: &'static str)
        ensures
            r@ == self.property_name(),
    {
        match self {
            WeatherMeasurement::Temperature => ObservingConditionsProperties::TEMPERATURE,
            WeatherMeasurement::Humidity => ObservingConditionsProperties::HUMIDITY,
            WeatherMeasurement::SkyBrightness => ObservingConditionsProperties::SKY_BRIGHTNESS,
            WeatherMeasurement::WindSpeed => ObservingConditionsProperties::WIND_SPEED,
            WeatherMeasurement::WindGust => ObservingConditionsProperties::WIND_GUST,
            WeatherMeasurement::RainRate => ObservingConditionsProperties::RAIN_RATE,
        }
    }
}

/// A configured measurement, compared with its threshold.
pub struct MeasurementCheck {
    pub kind: WeatherMeasurement,
    /// The outcome of the threshold comparison, as a safety verdict.
    pub is_safe: bool,
    pub timeout_seconds: Option<u64>,
}

/// A checked measurement, as listed in a weather device's status.
pub struct MeasurementStatus {
    pub name: String,
    pub is_safe: bool,
    pub timeout_seconds: Option<u64>,
    pub last_update: Option<i64>,
}

/// The settings of a device's safety check.
#[derive(Clone, Copy, Debug, PartialEq, Eq, Structural)]
pub struct SafetyThresholdSettings {
    pub enabled: bool,
    /// Observations older than this make the device unsafe.
    pub timeout_seconds: u64,
    pub hold_time_seconds: u64,
}

/// A weather device, as far as its safety monitoring goes.
pub struct WeatherDeviceSettings {
    pub device_number: u32,
    pub name: String,
    pub enabled: bool,
    pub source: WeatherDataSource,
    pub thresholds: Option<SafetyThresholdSettings>,
}

/// The safety state of a weather device.
pub struct WeatherMonitorStatus {
    pub device_number: u32,
    pub name: String,
    pub is_safe: bool,
    pub last_update: Option<i64>,
    pub error: Option<String>,
    pub enabled: bool,
    pub measurements: Vec<MeasurementStatus>,
    pub hold_time_seconds: u64,
    pub pending_is_safe: Option<bool>,
    pub pending_since: Option<i64>,
}

/// The mathematical value of a `WeatherMonitorStatus`.
pub struct WeatherStatusView {
    pub device_number: u32,
    pub name: Seq<char>,
    pub is_safe: bool,
    pub last_update: Option<i64>,
    pub error: Option<Seq<char>>,
    pub enabled: bool,
    pub measurements: Seq<(Seq<char>, bool, Option<u64>, Option<i64>)>,
    pub hold_time_seconds: u64,
    pub pending_is_safe: Option<bool>,
    pub pending_since: Option<i64>,
}

pub open spec fn measurement_views(v: Seq<MeasurementStatus>) -> Seq<(Seq<char>, bool, Option<u64>, Option<i64>)> {
    Seq::new(v.len(), |i: int| (v[i].name@, v[i].is_safe, v[i].timeout_seconds, v[i].last_update))
}

impl View for WeatherMonitorStatus {
    type V = WeatherStatusView;

    open spec fn view(&self) -> WeatherStatusView {
        WeatherStatusView {
            device_number: self.device_number,
            name: self.name@,
            is_safe: self.is_safe,
            last_update: self.last_update,
            error: opt_view(self.error),
            enabled: self.enabled,
            measurements: measurement_views(self.measurements@),
            hold_time_seconds: self.hold_time_seconds,
            pending_is_safe: self.pending_is_safe,
            pending_since: self.pending_since,
        }
    }
}

impl WeatherStatusView {
    pub open spec fn hold(self) -> HoldState {
        HoldState { current: self.is_safe, pending: self.pending_is_safe, pending_since: self.pending_since }
    }
}

/// Every check is safe.
pub open spec fn all_checks_safe(checks: Seq<MeasurementCheck>) -> bool {
    forall|i: int| 0 <= i < checks.len() ==> (#[trigger] checks[i]).is_safe
}

/// The measurements listed for the checks of an observation taken at `ts`.
pub open spec fn checked_measurements(checks: Seq<MeasurementCheck>, ts: i64) -> Seq<(Seq<char>, bool, Option<u64>, Option<i64>)> {
    Seq::new(checks.len(), |i: int| (checks[i].kind.label(), checks[i].is_safe, checks[i].timeout_seconds, Some(ts)))
}

/// The check's own timeout is set and data `age` seconds old exceeds it.
pub open spec fn own_timeout_exceeded(c: MeasurementCheck, age: int) -> bool {
    match c.timeout_seconds {
        Some(limit) => age > limit,
        None => false,
    }
}

/// The first check whose own timeout data `age` seconds old exceeds.
pub open spec fn own_stale(checks: Seq<MeasurementCheck>, age: int) -> Option<int>
    decreases checks.len(),
{
    if checks.len() == 0 {
        None
    } else {
        match own_stale(checks.drop_last(), age) {
            Some(i) => Some(i),
            None => if own_timeout_exceeded(checks.last(), age) {
                Some(checks.len() - 1)
            } else {
                None
            },
        }
    }
}

/// The device's timeout governs some of the checks: there are none, or
/// one of them sets no timeout of its own.
pub open spec fn device_timeout_applies(checks: Seq<MeasurementCheck>) -> bool {
    checks.len() == 0 || exists|i: int| 0 <= i < checks.len() && (#[trigger] checks[i]).timeout_seconds is None
}

/// Data `age` seconds old is too old: it exceeds the limit of some check,
/// which is the check's own timeout when it sets one (overriding the
/// device's `timeout`) and the device's timeout otherwise; with no checks
/// the device's timeout is the limit.
pub open spec fn is_stale(checks: Seq<MeasurementCheck>, timeout: u64, age: int) -> bool {
    (device_timeout_applies(checks) && age > timeout) || own_stale(checks, age) is Some
}

/// The error for data `age` seconds old, when it is too old (see
/// `is_stale`): a weather data timeout when the data is older than the
/// device's timeout, otherwise a timeout of the first measurement whose
/// own timeout the data exceeds.
pub open spec fn stale_error(checks: Seq<MeasurementCheck>, timeout: u64, age: int) -> Option<Seq<char>> {
    if !is_stale(checks, timeout, age) {
        None
    } else if age > timeout {
        Some("Weather data timeout ("@ + decimal_digits(age as nat) + " seconds old)"@)
    } else {
        match own_stale(checks, age) {
            Some(i) => Some(checks[i].kind.label() + " data timeout ("@ + decimal_digits(age as nat) + " seconds old)"@),
            None => None,
        }
    }
}

/// The status after a safety check of a device with `settings`, given the
/// timestamp of the latest observation of its station (if any), the time
/// `now` and the outcome of its threshold checks. A device without enabled
/// thresholds, or not fed by a Tempest station, is not checked. Without an
/// observation only the error changes. Stale data makes the device unsafe
/// at once (see `stale_error`). Otherwise the checks are listed and their combined verdict goes
/// through the hold time, timed by the observation.
pub open spec fn checked_status(before: WeatherStatusView, settings: WeatherDeviceSettings, ts: Option<i64>, now: i64, checks: Seq<MeasurementCheck>) -> WeatherStatusView {
    match settings.thresholds {
        Some(t) => if !t.enabled || !(settings.source is Tempest) {
            before
        } else {
            match ts {
                None => WeatherStatusView { error: Some("No weather data received yet"@), ..before },
                Some(ts) => {
                    let age = elapsed_u64(now as int, ts as int);
                    if let Some(msg) = stale_error(checks, t.timeout_seconds, age) {
                        WeatherStatusView {
                            is_safe: false,
                            error: Some(msg),
                            pending_is_safe: None,
                            pending_since: None,
                            ..before
                        }
                    } else {
                        let h = before.hold().after_reading(all_checks_safe(checks), ts, t.hold_time_seconds, false);
                        WeatherStatusView {
                            last_update: Some(ts),
                            error: None,
                            measurements: checked_measurements(checks, ts),
                            is_safe: h.current,
                            pending_is_safe: h.pending,
                            pending_since: h.pending_since,
                            ..before
                        }
                    }
                },
            }
        },
        None => before,
    }
}

/// The error for observation data `age` seconds old; see `stale_error`.
fn stale_message(checks: &Vec<MeasurementCheck>, timeout: u64, age: u64) -> (r: Option<String>)
    ensures
        opt_view(r) == stale_error(checks@, timeout, age as int),
{
    let mut i: usize = 0;
    let mut unset = false;
    let mut first: Option<usize> = None;
    while i < checks.len()
        invariant
            i <= checks@.len(),
            unset == exists|j: int| 0 <= j < i && (#[trigger] checks@[j]).timeout_seconds is None,
            match first {
                Some(k) => k < i && own_stale(checks@.take(i as int), age as int) == Some(k as int),
                None => own_stale(checks@.take(i as int), age as int) is None,
            },
        decreases checks@.len() - i,
    {
        assert(checks@.take(i + 1).drop_last() =~= checks@.take(i as int));
        assert(checks@.take(i + 1).last() == checks@[i as int]);
        let exceeded = match checks[i].timeout_seconds {
            Some(limit) => age > limit,
            None => false,
        };
        if exceeded && first.is_none() {
            first = Some(i);
        }
        if checks[i].timeout_seconds.is_none() {
            unset = true;
        }
        i = i + 1;
    }
    assert(checks@.take(checks@.len() as int) =~= checks@);
    let stale = ((checks.len() == 0 || unset) && age > timeout) || first.is_some();
    if !stale {
        return None;
    }
    if age > timeout {
        let mut msg = "Weather data timeout (".to_owned();
        let digits = decimal_string(age);
        msg.append(digits.as_str());
        msg.append(" seconds old)");
        return Some(msg);
    }
    match first {
        Some(k) => {
            let mut msg = checks[k].kind.name().to_owned();
            msg.append(" data timeout (");
            let digits = decimal_string(age);
            msg.append(digits.as_str());
            msg.append(" seconds old)");
            Some(msg)
        },
        None => None,
    }
}

/// A weather device under safety monitoring.
pub struct WeatherMonitor {
    pub settings: WeatherDeviceSettings,
    pub status: WeatherMonitorStatus,
}

impl WeatherMonitor {
    /// A monitor that starts safe, with no data yet.
    pub fn new(settings: WeatherDeviceSettings) -> (r: WeatherMonitor)
        ensures
            r.settings == settings,
            r.status@.device_number == settings.device_number,
            r.status@.name == settings.name@,
            r.status@.is_safe,
            r.status@.last_update is None,
            r.status@.error is None,
            r.status@.enabled == settings.enabled,
            r.status@.measurements.len() == 0,
            r.status@.hold_time_seconds == match settings.thresholds {
                Some(t) => t.hold_time_seconds,
                None => 0,
            },
            r.status@.pending_is_safe is None,
            r.status@.pending_since is None,
            r.status@ == fresh_weather_status(settings),
    {
        let status = WeatherMonitorStatus {
            device_number: settings.device_number,
            name: settings.name.clone(),
            is_safe: true,
            last_update: None,
            error: None,
            enabled: settings.enabled,
            measurements: Vec::new(),
            hold_time_seconds: match settings.thresholds {
                Some(t) => t.hold_time_seconds,
                None => 0,
            },
            pending_is_safe: None,
            pending_since: None,
        };
        assert(measurement_views(status.measurements@) =~= Seq::empty());
        WeatherMonitor { settings, status }
    }

    /// The status of the device.
    pub fn get_status(&self) -> (r: &WeatherMonitorStatus)
        ensures
            r == &self.status,
    {
        &self.status
    }

    /// Checks the device's safety; see `checked_status`. `observation_time`
    /// is the time of the latest observation of the device's station.
    pub fn check_safety(&mut self, observation_time: Option<i64>, now: i64, checks: &Vec<MeasurementCheck>)
        ensures
            final(self).settings == old(self).settings,
            final(self).status@ == checked_status(old(self).status@, old(self).settings, observation_time, now, checks@),
    {
        let t = match self.settings.thresholds {
            Some(t) => t,
            None => return,
        };
        if !t.enabled {
            return;
        }
        match &self.settings.source {
            WeatherDataSource::Tempest { .. } => {},
            WeatherDataSource::WeatherUnderground { .. } => return,
        }
        let ts = match observation_time {
            Some(ts) => ts,
            None => {
                self.status.error = Some("No weather data received yet".to_owned());
                return;
            },
        };
        let age = elapsed_seconds(now, ts);
        if let Some(msg) = stale_message(checks, t.timeout_seconds, age) {
            self.status.is_safe = false;
            self.status.error = Some(msg);
            self.status.pending_is_safe = None;
            self.status.pending_since = None;
            return;
        }
        let mut measurements: Vec<MeasurementStatus> = Vec::new();
        let mut all_safe = true;
        let mut i: usize = 0;
        while i < checks.len()
            invariant
                i <= checks@.len(),
                measurements@.len() == i,
                measurement_views(measurements@) == checked_measurements(checks@.take(i as int), ts),
                all_safe == all_checks_safe(checks@.take(i as int)),
            decreases checks@.len() - i,
        {
            let c = &checks[i];
            let ghost m0 = measurements@;
            measurements.push(
                MeasurementStatus {
                    name: c.kind.name().to_owned(),
                    is_safe: c.is_safe,
                    timeout_seconds: c.timeout_seconds,
                    last_update: Some(ts),
                },
            );
            all_safe = all_safe && c.is_safe;
            assert(checks@.take(i + 1).drop_last() =~= checks@.take(i as int));
            assert forall|j: int| 0 <= j < i + 1 implies #[trigger] measurement_views(measurements@)[j]
                == checked_measurements(checks@.take(i + 1), ts)[j] by {
                if j < i {
                    assert(measurements@[j] == m0[j]);
                    assert(measurement_views(m0)[j] == checked_measurements(checks@.take(i as int), ts)[j]);
                }
            }
            assert(measurement_views(measurements@) =~= checked_measurements(checks@.take(i + 1), ts));
            assert(all_safe == all_checks_safe(checks@.take(i + 1))) by {
                if all_safe {
                    assert forall|j: int| 0 <= j < i + 1 implies (#[trigger] checks@.take(i + 1)[j]).is_safe by {
                        if j < i {
                            assert(checks@.take(i + 1)[j] == checks@.take(i as int)[j]);
                        }
                    }
                } else if !c.is_safe {
                    assert(!checks@.take(i + 1)[i as int].is_safe);
                } else {
                    let j = choose|j: int| 0 <= j < i && !(#[trigger] checks@.take(i as int)[j]).is_safe;
                    assert(checks@.take(i + 1)[j] == checks@.take(i as int)[j]);
                }
            }
            i = i + 1;
        }
        assert(checks@.take(checks@.len() as int) =~= checks@);
        self.status.last_update = Some(ts);
        self.status.error = None;
        self.status.measurements = measurements;
        let mut h = HoldState {
            current: self.status.is_safe,
            pending: self.status.pending_is_safe,
            pending_since: self.status.pending_since,
        };
        h.apply_reading(all_safe, ts, t.hold_time_seconds, false);
        self.status.is_safe = h.current;
        self.status.pending_is_safe = h.pending;
        self.status.pending_since = h.pending_since;
    }
}

/// Why a weather device is unsafe, as reported in the overall status.
pub enum UnsafeNote {
    /// The device has an error; the text names the device and the error.
    DeviceError { text: String },
    /// A measurement of the device is outside its threshold.
    Measurement { device_number: u32, device_name: String, measurement: String },
}

/// The mathematical value of an `UnsafeNote`.
pub enum UnsafeNoteView {
    DeviceError(Seq<char>),
    Measurement(u32, Seq<char>, Seq<char>),
}

impl View for UnsafeNote {
    type V = UnsafeNoteView;

    open spec fn view(&self) -> UnsafeNoteView {
        match self {
            UnsafeNote::DeviceError { text } => UnsafeNoteView::DeviceError(text@),
            UnsafeNote::Measurement { device_number, device_name, measurement } => UnsafeNoteView::Measurement(
                *device_number,
                device_name@,
                measurement@,
            ),
        }
    }
}

pub open spec fn note_views(v: Seq<UnsafeNote>) -> Seq<UnsafeNoteView> {
    Seq::new(v.len(), |i: int| v[i]@)
}

/// The notes on the unsafe measurements of a device, in order.
pub open spec fn measurement_notes(s: WeatherStatusView, ms: Seq<(Seq<char>, bool, Option<u64>, Option<i64>)>) -> Seq<UnsafeNoteView>
    decreases ms.len(),
{
    if ms.len() == 0 {
        Seq::empty()
    } else {
        let b = measurement_notes(s, ms.drop_last());
        if !ms.last().1 {
            b.push(UnsafeNoteView::Measurement(s.device_number, s.name, ms.last().0))
        } else {
            b
        }
    }
}

/// The notes on one device: none when it is disabled or safe; its error
/// when it has one; otherwise its unsafe measurements.
pub open spec fn device_notes(s: WeatherStatusView) -> Seq<UnsafeNoteView> {
    if !s.enabled || s.is_safe {
        Seq::empty()
    } else {
        match s.error {
            Some(e) => seq![UnsafeNoteView::DeviceError(s.name + ": "@ + e)],
            None => measurement_notes(s, s.measurements),
        }
    }
}

/// The notes on all devices, in order.
pub open spec fn overall_notes(ss: Seq<WeatherStatusView>) -> Seq<UnsafeNoteView>
    decreases ss.len(),
{
    if ss.len() == 0 {
        Seq::empty()
    } else {
        overall_notes(ss.drop_last()) + device_notes(ss.last())
    }
}

/// Every enabled device is safe.
pub open spec fn all_enabled_safe(ss: Seq<WeatherStatusView>) -> bool {
    forall|i: int| 0 <= i < ss.len() ==> (#[trigger] ss[i]).enabled ==> ss[i].is_safe
}

/// A device whose safety is monitored: enabled, with enabled thresholds.
pub open spec fn monitored(c: WeatherDeviceSettings) -> bool {
    c.enabled && match c.thresholds {
        Some(t) => t.enabled,
        None => false,
    }
}

/// What the manager knows of a monitor: its settings and its status.
pub open spec fn monitor_views(ms: Seq<WeatherMonitor>) -> Seq<(WeatherDeviceSettings, WeatherStatusView)> {
    Seq::new(ms.len(), |i: int| (ms[i].settings, ms[i].status@))
}

/// The first monitor of a device.
pub open spec fn find_device(vs: Seq<(WeatherDeviceSettings, WeatherStatusView)>, n: u32) -> Option<int>
    decreases vs.len(),
{
    if vs.len() == 0 {
        None
    } else {
        match find_device(vs.drop_last(), n) {
            Some(i) => Some(i),
            None => if vs.last().0.device_number == n {
                Some(vs.len() - 1)
            } else {
                None
            },
        }
    }
}

/// `find_device` gives the first monitor of the device number, if any.
pub proof fn lemma_find_device(vs: Seq<(WeatherDeviceSettings, WeatherStatusView)>, n: u32)
    ensures
        match find_device(vs, n) {
            Some(i) => 0 <= i < vs.len() && vs[i].0.device_number == n && forall|j: int|
                0 <= j < i ==> vs[j].0.device_number != n,
            None => forall|j: int| 0 <= j < vs.len() ==> vs[j].0.device_number != n,
        },
    decreases vs.len(),
{
    if vs.len() > 0 {
        let d = vs.drop_last();
        lemma_find_device(d, n);
        assert(forall|j: int| 0 <= j < d.len() ==> d[j] == vs[j]);
    }
}

proof fn lemma_find_device_unique(vs: Seq<(WeatherDeviceSettings, WeatherStatusView)>, n: u32, k: int)
    requires
        0 <= k < vs.len(),
        vs[k].0.device_number == n,
        forall|j: int| 0 <= j < k ==> vs[j].0.device_number != n,
    ensures
        find_device(vs, n) == Some(k),
{
    lemma_find_device(vs, n);
}

fn find_device_index(ms: &Vec<WeatherMonitor>, n: u32) -> (r: Option<usize>)
    ensures
        match r {
            Some(i) => find_device(monitor_views(ms@), n) == Some(i as int),
            None => find_device(monitor_views(ms@), n) is None,
        },
{
    let ghost vs = monitor_views(ms@);
    proof {
        lemma_find_device(vs, n);
    }
    let mut i: usize = 0;
    while i < ms.len()
        invariant
            vs == monitor_views(ms@),
            i <= ms@.len(),
            forall|j: int| 0 <= j < i ==> vs[j].0.device_number != n,
        decreases ms@.len() - i,
    {
        if ms[i].settings.device_number == n {
            proof {
                lemma_find_device_unique(vs, n, i as int);
            }
            return Some(i);
        }
        i = i + 1;
    }
    proof {
        if find_device(vs, n) is Some {
            lemma_find_device(vs, n);
        }
    }
    None
}

/// The monitors after a monitor was stored: one of the same device is
/// replaced.
pub open spec fn put_monitor(vs: Seq<(WeatherDeviceSettings, WeatherStatusView)>, m: (WeatherDeviceSettings, WeatherStatusView)) -> Seq<(WeatherDeviceSettings, WeatherStatusView)> {
    match find_device(vs, m.0.device_number) {
        Some(i) => vs.update(i, m),
        None => vs.push(m),
    }
}

/// The status of a monitor that was just started.
pub open spec fn fresh_weather_status(c: WeatherDeviceSettings) -> WeatherStatusView {
    WeatherStatusView {
        device_number: c.device_number,
        name: c.name@,
        is_safe: true,
        last_update: None,
        error: None,
        enabled: c.enabled,
        measurements: Seq::empty(),
        hold_time_seconds: match c.thresholds {
            Some(t) => t.hold_time_seconds,
            None => 0,
        },
        pending_is_safe: None,
        pending_since: None,
    }
}

pub open spec fn status_of(vs: Seq<(WeatherDeviceSettings, WeatherStatusView)>) -> Seq<WeatherStatusView> {
    Seq::new(vs.len(), |i: int| vs[i].1)
}

/// The weather monitors, at most one per device.
pub struct WeatherMonitorManager {
    pub monitors: Vec<WeatherMonitor>,
}

impl WeatherMonitorManager {
    pub fn new() -> (r: WeatherMonitorManager)
        ensures
            r.monitors@.len() == 0,
    {
        WeatherMonitorManager { monitors: Vec::new() }
    }

    /// Starts a monitor for every enabled device with enabled thresholds; a
    /// device listed twice keeps its last settings.
    pub fn initialize(&mut self, configs: Vec<WeatherDeviceSettings>)
        ensures
            monitor_views(final(self).monitors@) == started_after(monitor_views(old(self).monitors@), configs@),
    {
        let ghost orig = configs@;
        let ghost base = monitor_views(self.monitors@);
        let mut configs = configs;
        let ghost mut k: int = 0;
        assert(orig.take(0) =~= Seq::<WeatherDeviceSettings>::empty());
        assert(orig.skip(0) =~= orig);
        while configs.len() > 0
            invariant
                0 <= k <= orig.len(),
                k + configs@.len() == orig.len(),
                configs@ == orig.skip(k),
                monitor_views(self.monitors@) == started_after(base, orig.take(k)),
            decreases configs@.len(),
        {
            let c = configs.remove(0);
            assert(orig.take(k + 1).drop_last() =~= orig.take(k));
            assert(orig.skip(k).remove(0) =~= orig.skip(k + 1));
            assert(orig.take(k + 1).last() == orig[k]);
            let wanted = c.enabled && match c.thresholds {
                Some(t) => t.enabled,
                None => false,
            };
            if wanted {
                let m = WeatherMonitor::new(c);
                self.put(m);
            }
            proof {
                k = k + 1;
            }
        }
        assert(orig.take(k) =~= orig);
    }

    fn put(&mut self, m: WeatherMonitor)
        ensures
            monitor_views(final(self).monitors@) == put_monitor(
                monitor_views(old(self).monitors@),
                (m.settings, m.status@),
            ),
    {
        let ghost vs = monitor_views(self.monitors@);
        proof {
            lemma_find_device(vs, m.settings.device_number);
        }
        match find_device_index(&self.monitors, m.settings.device_number) {
            Some(i) => {
                self.monitors.set(i, m);
                assert(monitor_views(self.monitors@) =~= vs.update(i as int, (m.settings, m.status@)));
            },
            None => {
                self.monitors.push(m);
                assert(monitor_views(self.monitors@) =~= vs.push((m.settings, m.status@)));
            },
        }
    }

    /// Stops every monitor.
    pub fn shutdown(&mut self)
        ensures
            final(self).monitors@.len() == 0,
    {
        self.monitors = Vec::new();
    }

    /// Stops the monitor of a device, if there is one.
    pub fn remove_monitor(&mut self, device_number: u32)
        ensures
            match find_device(monitor_views(old(self).monitors@), device_number) {
                Some(i) => final(self).monitors@ == old(self).monitors@.remove(i),
                None => final(self).monitors@ == old(self).monitors@,
            },
    {
        proof {
            lemma_find_device(monitor_views(self.monitors@), device_number);
        }
        match find_device_index(&self.monitors, device_number) {
            Some(i) => {
                self.monitors.remove(i);
            },
            None => {},
        }
    }

    /// The monitor of a device.
    pub fn get_monitor(&self, device_number: u32) -> (r: Option<&WeatherMonitor>)
        ensures
            match find_device(monitor_views(self.monitors@), device_number) {
                Some(i) => r == Some(&self.monitors@[i]),
                None => r is None,
            },
    {
        proof {
            lemma_find_device(monitor_views(self.monitors@), device_number);
        }
        match find_device_index(&self.monitors, device_number) {
            Some(i) => Some(&self.monitors[i]),
            None => None,
        }
    }

    /// Every enabled monitor is safe.
    pub fn are_all_safe(&self) -> (r: bool)
        ensures
            r == all_enabled_safe(status_of(monitor_views(self.monitors@))),
    {
        let ghost ss = status_of(monitor_views(self.monitors@));
        let mut i: usize = 0;
        while i < self.monitors.len()
            invariant
                ss == status_of(monitor_views(self.monitors@)),
                i <= self.monitors@.len(),
                forall|j: int| 0 <= j < i ==> (#[trigger] ss[j]).enabled ==> ss[j].is_safe,
            decreases self.monitors@.len() - i,
        {
            let st = &self.monitors[i].status;
            if st.enabled && !st.is_safe {
                assert(ss[i as int].enabled && !ss[i as int].is_safe);
                return false;
            }
            i = i + 1;
        }
        true
    }

    /// The overall weather safety: `None` without monitors, otherwise
    /// whether every enabled device is safe and why the others are not.
    pub fn get_overall_status(&self) -> (r: Option<(bool, Vec<UnsafeNote>)>)
        ensures
            match r {
                None => self.monitors@.len() == 0,
                Some((safe, notes)) => {
                    &&& self.monitors@.len() > 0
                    &&& safe == all_enabled_safe(status_of(monitor_views(self.monitors@)))
                    &&& note_views(notes@) == overall_notes(status_of(monitor_views(self.monitors@)))
                },
            },
    {
        if self.monitors.len() == 0 {
            return None;
        }
        let ghost ss = status_of(monitor_views(self.monitors@));
        let mut all_safe = true;
        let mut notes: Vec<UnsafeNote> = Vec::new();
        let mut i: usize = 0;
        assert(ss.take(0) =~= Seq::<WeatherStatusView>::empty());
        while i < self.monitors.len()
            invariant
                ss == status_of(monitor_views(self.monitors@)),
                i <= self.monitors@.len(),
                all_safe == all_enabled_safe(ss.take(i as int)),
                note_views(notes@) == overall_notes(ss.take(i as int)),
            decreases self.monitors@.len() - i,
        {
            let st = &self.monitors[i].status;
            assert(ss.take(i + 1).drop_last() =~= ss.take(i as int));
            assert(ss.take(i + 1).last() == st@);
            let ghost n0 = note_views(notes@);
            if st.enabled && !st.is_safe {
                all_safe = false;
                match &st.error {
                    Some(e) => {
                        let mut text = st.name.clone();
                        text.append(": ");
                        text.append(e.as_str());
                        notes.push(UnsafeNote::DeviceError { text });
                        assert(note_views(notes@) =~= n0 + device_notes(st@));
                    },
                    None => {
                        let mut k: usize = 0;
                        let ghost ms = st@.measurements;
                        assert(ms.take(0) =~= Seq::<(Seq<char>, bool, Option<u64>, Option<i64>)>::empty());
                        assert(n0 + measurement_notes(st@, ms.take(0)) =~= n0);
                        while k < st.measurements.len()
                            invariant
                                ms == st@.measurements,
                                ms.len() == st.measurements@.len(),
                                k <= ms.len(),
                                note_views(notes@) == n0 + measurement_notes(st@, ms.take(k as int)),
                            decreases ms.len() - k,
                        {
                            let m = &st.measurements[k];
                            assert(ms.take(k + 1).drop_last() =~= ms.take(k as int));
                            assert(ms.take(k + 1).last() == ms[k as int]);
                            assert(ms[k as int] == measurement_views(st.measurements@)[k as int]);
                            let ghost nb = note_views(notes@);
                            if !m.is_safe {
                                notes.push(
                                    UnsafeNote::Measurement {
                                        device_number: st.device_number,
                                        device_name: st.name.clone(),
                                        measurement: m.name.clone(),
                                    },
                                );
                                let ghost note = UnsafeNoteView::Measurement(st@.device_number, st@.name, ms[k as int].0);
                                assert(note_views(notes@) =~= nb.push(note));
                                assert(measurement_notes(st@, ms.take(k + 1)) == measurement_notes(st@, ms.take(k as int)).push(note));
                                assert(note_views(notes@) =~= n0 + measurement_notes(st@, ms.take(k + 1)));
                            }
                            k = k + 1;
                        }
                        assert(ms.take(ms.len() as int) =~= ms);
                    },
                }
            } else {
                assert(device_notes(st@) =~= Seq::<UnsafeNoteView>::empty());
                assert(n0 + device_notes(st@) =~= n0);
            }
            assert(all_safe == all_enabled_safe(ss.take(i + 1))) by {
                if all_safe {
                    assert forall|j: int| 0 <= j < i + 1 && (#[trigger] ss.take(i + 1)[j]).enabled implies ss.take(
                        i + 1,
                    )[j].is_safe by {
                        if j < i {
                            assert(ss.take(i + 1)[j] == ss.take(i as int)[j]);
                        }
                    }
                } else if st.enabled && !st.is_safe {
                    assert(!ss.take(i + 1)[i as int].is_safe);
                } else {
                    let j = choose|j: int| 0 <= j < i && (#[trigger] ss.take(i as int)[j]).enabled && !ss.take(
                        i as int,
                    )[j].is_safe;
                    assert(ss.take(i + 1)[j] == ss.take(i as int)[j]);
                }
            }
            i = i + 1;
        }
        assert(ss.take(self.monitors@.len() as int) =~= ss);
        Some((all_safe, notes))
    }
}

/// The monitors after the configured devices were offered in order to
/// `base`.
pub open spec fn started_after(base: Seq<(WeatherDeviceSettings, WeatherStatusView)>, cfgs: Seq<WeatherDeviceSettings>) -> Seq<(WeatherDeviceSettings, WeatherStatusView)>
    decreases cfgs.len(),
{
    if cfgs.len() == 0 {
        base
    } else {
        let b = started_after(base, cfgs.drop_last());
        let c = cfgs.last();
        if monitored(c) {
            put_monitor(b, (c, fresh_weather_status(c)))
        } else {
            b
        }
    }
}

/// `own_stale` gives the first check whose own timeout is exceeded, if any.
pub proof fn lemma_own_stale(checks: Seq<MeasurementCheck>, age: int)
    ensures
        match own_stale(checks, age) {
            Some(i) => 0 <= i < checks.len() && own_timeout_exceeded(checks[i], age) && forall|j: int|
                0 <= j < i ==> !own_timeout_exceeded(#[trigger] checks[j], age),
            None => forall|j: int| 0 <= j < checks.len() ==> !own_timeout_exceeded(#[trigger] checks[j], age),
        },
    decreases checks.len(),
{
    if checks.len() > 0 {
        let d = checks.drop_last();
        lemma_own_stale(d, age);
        assert(forall|j: int| 0 <= j < d.len() ==> d[j] == checks[j]);
    }
}

/// Data too old makes a checked device unsafe at once, with an error,
/// whatever its hold time, and cancels any pending change. Data is too old
/// when it exceeds the own timeout of one of the checks, or the device's
/// timeout while some check sets none of its own (or there are no checks):
/// a check's own timeout overrides the device's. Past the device's timeout
/// the error is the weather data timeout. The listed measurements and the
/// last update stay as they were.
pub proof fn lemma_stale_weather_is_unsafe(before: WeatherStatusView, settings: WeatherDeviceSettings, ts: i64, now: i64, checks: Seq<MeasurementCheck>)
    requires
        settings.thresholds matches Some(t) && t.enabled && {
            let age = elapsed_u64(now as int, ts as int);
            ||| (exists|i: int| 0 <= i < checks.len() && own_timeout_exceeded(#[trigger] checks[i], age))
            ||| (device_timeout_applies(checks) && age > t.timeout_seconds)
        },
        settings.source is Tempest,
    ensures
        !checked_status(before, settings, Some(ts), now, checks).is_safe,
        checked_status(before, settings, Some(ts), now, checks).error is Some,
        checked_status(before, settings, Some(ts), now, checks).pending_is_safe is None,
        checked_status(before, settings, Some(ts), now, checks).pending_since is None,
        checked_status(before, settings, Some(ts), now, checks).measurements == before.measurements,
        checked_status(before, settings, Some(ts), now, checks).last_update == before.last_update,
        settings.thresholds->0.timeout_seconds < elapsed_u64(now as int, ts as int) ==> checked_status(
            before,
            settings,
            Some(ts),
            now,
            checks,
        ).error == Some(
            "Weather data timeout ("@ + decimal_digits(elapsed_u64(now as int, ts as int) as nat) + " seconds old)"@,
        ),
{
    lemma_own_stale(checks, elapsed_u64(now as int, ts as int));
}

/// Without a hold time, data within every check's limit (its own timeout,
/// or the device's when it sets none) sets the device's safety to whether
/// every checked measurement is safe.
pub proof fn lemma_weather_without_hold(before: WeatherStatusView, settings: WeatherDeviceSettings, ts: i64, now: i64, checks: Seq<MeasurementCheck>)
    requires
        settings.thresholds matches Some(t) && t.enabled && t.hold_time_seconds == 0 && {
            let age = elapsed_u64(now as int, ts as int);
            &&& forall|i: int| 0 <= i < checks.len() ==> !own_timeout_exceeded(#[trigger] checks[i], age)
            &&& (device_timeout_applies(checks) ==> age <= t.timeout_seconds)
        },
        settings.source is Tempest,
    ensures
        checked_status(before, settings, Some(ts), now, checks).is_safe == all_checks_safe(checks),
        checked_status(before, settings, Some(ts), now, checks).error is None,
{
    lemma_own_stale(checks, elapsed_u64(now as int, ts as int));
}

/// Data is within every check's limit: no check's own timeout is exceeded,
/// and the device's timeout is not exceeded where it applies.
pub open spec fn fresh_for(checks: Seq<MeasurementCheck>, timeout: u64, age: int) -> bool {
    &&& forall|i: int| 0 <= i < checks.len() ==> !own_timeout_exceeded(#[trigger] checks[i], age)
    &&& (device_timeout_applies(checks) ==> age <= timeout)
}

/// Under a hold time, fresh data changes a device's safety in either
/// direction (to unsafe as to safe) only through a pending change timed by
/// the observations: agreeing data clears what is pending; disagreeing data
/// starts a pending change at the observation's time unless that change is
/// already pending; a change pending for at least the hold time is made.
pub proof fn lemma_weather_hold_both_ways(before: WeatherStatusView, settings: WeatherDeviceSettings, ts: i64, now: i64, checks: Seq<MeasurementCheck>)
    requires
        settings.thresholds matches Some(t) && t.enabled && t.hold_time_seconds > 0 && fresh_for(
            checks,
            t.timeout_seconds,
            elapsed_u64(now as int, ts as int),
        ),
        settings.source is Tempest,
    ensures
        ({
            let r = checked_status(before, settings, Some(ts), now, checks);
            let b = all_checks_safe(checks);
            let hold = settings.thresholds->0.hold_time_seconds;
            &&& r.error is None
            &&& r.last_update == Some(ts)
            &&& b == before.is_safe ==> r.is_safe == b && r.pending_is_safe is None && r.pending_since is None
            &&& b != before.is_safe && before.pending_is_safe != Some(b) ==> r.is_safe == before.is_safe
                && r.pending_is_safe == Some(b) && r.pending_since == Some(ts)
            &&& b != before.is_safe && before.pending_is_safe == Some(b) && before.pending_since is Some
                && hold_elapsed(ts as int, before.pending_since->0 as int, hold as int) ==> r.is_safe == b
                && r.pending_is_safe is None && r.pending_since is None
            &&& b != before.is_safe && before.pending_is_safe == Some(b) && before.pending_since is Some
                && !hold_elapsed(ts as int, before.pending_since->0 as int, hold as int) ==> r.is_safe
                == before.is_safe && r.pending_is_safe == Some(b) && r.pending_since == before.pending_since
        }),
{
    lemma_own_stale(checks, elapsed_u64(now as int, ts as int));
}

/// Two fresh observations at least the hold time apart, whose checks are
/// all safe (or not all safe), bring a device with nothing pending to that
/// verdict, whichever state it had: an unsafe device becomes safe again
/// once calm weather has held for the hold time.
pub proof fn lemma_weather_change_commits(
    before: WeatherStatusView,
    settings: WeatherDeviceSettings,
    ts0: i64,
    now0: i64,
    ts1: i64,
    now1: i64,
    checks0: Seq<MeasurementCheck>,
    checks1: Seq<MeasurementCheck>,
)
    requires
        settings.thresholds matches Some(t) && t.enabled && fresh_for(
            checks0,
            t.timeout_seconds,
            elapsed_u64(now0 as int, ts0 as int),
        ) && fresh_for(checks1, t.timeout_seconds, elapsed_u64(now1 as int, ts1 as int)) && ts0 <= ts1 && ts1 - ts0
            >= t.hold_time_seconds,
        settings.source is Tempest,
        before.pending_is_safe is None,
        all_checks_safe(checks0) == all_checks_safe(checks1),
    ensures
        checked_status(
            checked_status(before, settings, Some(ts0), now0, checks0),
            settings,
            Some(ts1),
            now1,
            checks1,
        ).is_safe == all_checks_safe(checks1),
{
    lemma_own_stale(checks0, elapsed_u64(now0 as int, ts0 as int));
    lemma_own_stale(checks1, elapsed_u64(now1 as int, ts1 as int));
}

/// Until the station has sent an observation, the device keeps its safety
/// state and reports that no data was received.
pub proof fn lemma_no_observation_keeps_state(before: WeatherStatusView, settings: WeatherDeviceSettings, now: i64, checks: Seq<MeasurementCheck>)
    requires
        settings.thresholds matches Some(t) && t.enabled,
        settings.source is Tempest,
    ensures
        checked_status(before, settings, None, now, checks).is_safe == before.is_safe,
        checked_status(before, settings, None, now, checks).error == Some("No weather data received yet"@),
{
}

/// When every enabled device is safe, the overall status reports nothing.
pub proof fn lemma_all_safe_has_no_notes(ss: Seq<WeatherStatusView>)
    requires
        all_enabled_safe(ss),
    ensures
        overall_notes(ss).len() == 0,
    decreases ss.len(),
{
    if ss.len() > 0 {
        let d = ss.drop_last();
        assert(all_enabled_safe(d)) by {
            assert forall|i: int| 0 <= i < d.len() && (#[trigger] d[i]).enabled implies d[i].is_safe by {
                assert(d[i] == ss[i]);
            }
        }
        lemma_all_safe_has_no_notes(d);
        assert(ss.last() == ss[ss.len() - 1]);
    }
}

/// A rain rate is only computed from two observations less than an hour
/// apart, the later one strictly after the earlier one.
pub fn rain_rate_window(current_time: i64, previous_time: i64) -> (r: bool)
    ensures
        r == (0 < current_time - previous_time < 3600),
{
    let d: i128 = current_time as i128 - previous_time as i128;
    0 < d && d < 3600
}

/// The time of a Tempest observation array: the array must hold at least
/// 18 fields, the first an integer count of seconds.
pub fn observation_time(field_count: usize, timestamp: Option<i64>) -> (r: Result<i64, String>)
    ensures
        match r {
            Ok(t) => field_count >= 18 && timestamp == Some(t),
            Err(e) => if field_count < 18 {
                e@ == "Observation array too short: "@ + decimal_digits(field_count as nat) + " fields"@
            } else {
                timestamp is None && e@ == "Invalid timestamp"@
            },
        },
{
    if field_count < 18 {
        let mut e = "Observation array too short: ".to_owned();
        let n = decimal_string(field_count as u64);
        e.append(n.as_str());
        e.append(" fields");
        return Err(e);
    }
    match timestamp {
        Some(t) => Ok(t),
        None => Err("Invalid timestamp".to_owned()),
    }
}

} // verus!
