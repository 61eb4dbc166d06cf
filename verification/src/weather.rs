//! The Met Office's weather codes.

use vstd::prelude::*;
use crate::decimal::{integer_value, parse_i64};
use crate::text::same_text;

verus! {

/// The kinds of weather that the Met Office tells apart.
#[derive(Clone, Copy, Debug, PartialEq, Eq, Structural)]
pub enum Weather {
    Clear,
    PartlyCloudy,
    Mist,
    Fog,
    Cloudy,
    Overcast,
    TraceRain,
    LightRainShower,
    LightRain,
    Drizzle,
    HeavyRainShower,
    HeavyRain,
    SleetShower,
    Sleet,
    HailShower,
    Hail,
    LightSnowShower,
    LightSnow,
    HeavySnowShower,
    HeavySnow,
    ThunderShower,
    Thunder,
}

/// Why a weather code cannot be read.
#[derive(Clone, Copy, Debug, PartialEq, Eq, Structural)]
pub enum WeatherError {
    /// The code is no integer from -128 to 127.
    NotACode,
    /// The code is an integer that stands for no weather.
    UnknownCode { code: i8 },
}

/// The weather that a code stands for.
pub open spec fn weather_of(code: int) -> Option<Weather> {
    if code == -1 {
        Some(Weather::TraceRain)
    } else if code == 0 || code == 1 {
        Some(Weather::Clear)
    } else if code == 2 || code == 3 {
        Some(Weather::PartlyCloudy)
    } else if code == 5 {
        Some(Weather::Mist)
    } else if code == 6 {
        Some(Weather::Fog)
    } else if code == 7 {
        Some(Weather::Cloudy)
    } else if code == 8 {
        Some(Weather::Overcast)
    } else if code == 9 || code == 10 {
        Some(Weather::LightRainShower)
    } else if code == 11 {
        Some(Weather::Drizzle)
    } else if code == 12 {
        Some(Weather::LightRain)
    } else if code == 13 || code == 14 {
        Some(Weather::HeavyRainShower)
    } else if code == 15 {
        Some(Weather::HeavyRain)
    } else if code == 16 || code == 17 {
        Some(Weather::SleetShower)
    } else if code == 18 {
        Some(Weather::Sleet)
    } else if code == 19 || code == 20 {
        Some(Weather::HailShower)
    } else if code == 21 {
        Some(Weather::Hail)
    } else if code == 22 || code == 23 {
        Some(Weather::LightSnowShower)
    } else if code == 24 {
        Some(Weather::LightSnow)
    } else if code == 25 || code == 26 {
        Some(Weather::HeavySnowShower)
    } else if code == 27 {
        Some(Weather::HeavySnow)
    } else if code == 28 || code == 29 {
        Some(Weather::ThunderShower)
    } else if code == 30 {
        Some(Weather::Thunder)
    } else {
        None
    }
}

/// The code that `text` denotes: an integer from -128 to 127.
pub open spec fn parsed_code(text: Seq<char>) -> Option<int> {
    match integer_value(text) {
        Some(v) => if -128 <= v <= 127 {
            Some(v)
        } else {
            None
        },
        None => None,
    }
}

/// What a code as text stands for: `NA` for no weather, a number for the
/// weather of that number.
pub open spec fn weather_from(text: Seq<char>) -> Result<Option<Weather>, WeatherError> {
    if text == "NA"@ {
        Ok(None)
    } else {
        match parsed_code(text) {
            None => Err(WeatherError::NotACode),
            Some(v) => match weather_of(v) {
                Some(w) => Ok(Some(w)),
                None => Err(WeatherError::UnknownCode { code: v as i8 }),
            },
        }
    }
}

impl Weather {
    /// Reads a weather code.
    pub fn from_code(code: &str) -> (r: Result<Option<Weather>, WeatherError>)
        ensures
            r == weather_from(code@),
    {
        if same_text(code, "NA") {
            return Ok(None);
        }
        let number = match parse_i64(code) {
            Some(v) => if -128 <= v && v <= 127 {
                v
            } else {
                return Err(WeatherError::NotACode);
            },
            None => {
                return Err(WeatherError::NotACode);
            },
        };
        let weather = if number == -1 {
            Weather::TraceRain
        } else if number == 0 || number == 1 {
            Weather::Clear
        } else if number == 2 || number == 3 {
            Weather::PartlyCloudy
        } else if number == 5 {
            Weather::Mist
        } else if number == 6 {
            Weather::Fog
        } else if number == 7 {
            Weather::Cloudy
        } else if number == 8 {
            Weather::Overcast
        } else if number == 9 || number == 10 {
            Weather::LightRainShower
        } else if number == 11 {
            Weather::Drizzle
        } else if number == 12 {
            Weather::LightRain
        } else if number == 13 || number == 14 {
            Weather::HeavyRainShower
        } else if number == 15 {
            Weather::HeavyRain
        } else if number == 16 || number == 17 {
            Weather::SleetShower
        } else if number == 18 {
            Weather::Sleet
        } else if number == 19 || number == 20 {
            Weather::HailShower
        } else if number == 21 {
            Weather::Hail
        } else if number == 22 || number == 23 {
            Weather::LightSnowShower
        } else if number == 24 {
            Weather::LightSnow
        } else if number == 25 || number == 26 {
            Weather::HeavySnowShower
        } else if number == 27 {
            Weather::HeavySnow
        } else if number == 28 || number == 29 {
            Weather::ThunderShower
        } else if number == 30 {
            Weather::Thunder
        } else {
            return Err(WeatherError::UnknownCode { code: number as i8 });
        };
        Ok(Some(weather))
    }
}

} // verus!
