//! Export of a parsed log to a MoTeC `.ld` file: which columns become
//! channels, their names, units and calibration, the sample rate, and the
//! document handed to the `.ld` writer.

use vstd::prelude::*;
use vstd::string::*;
use vstd::utf8::{decode_utf8, encode_utf8, is_char_boundary};
use crate::decimal::is_digit;
use crate::ld::{
    LdChannel, LdChannelView, LdDocView, LdDocument, agree_off_stamp, ld_bytes, lemma_stamp_fields, total_samples, writable, CHANNEL_HEADER_SIZE, EVENT_SIZE,
    LOG_HEADER_SIZE, MAX_CHANNELS,
};
use crate::log_parse::ParsedLog;
use crate::text::{decimal_chars, decimal_text, eq_ascii_case, eq_ignore_ascii_case, str_eq};

verus! {

broadcast use vstd::utf8::encode_utf8_decode_utf8;

/// The calibration that turns a raw logged value into the channel's unit.
/// The arithmetic itself is floating point and is applied by the caller.
#[derive(Clone, Copy, PartialEq, Eq, Structural, Debug)]
pub enum Conversion {
    /// `v`
    Identity,
    /// `0.084769 * (v - 1430)`
    Steering,
    /// `-0.018586 * (v - 1311)`
    DamperFrontLeft,
    /// `-0.018444 * (v - 1324)`
    DamperFrontRight,
    /// `-0.018498 * (v - 1370)`
    DamperRearRight,
    /// `-0.018600 * (v - 1403)`
    DamperRearLeft,
    /// `(v * 0.122) / 1000`
    AccelMilliG,
    /// `(v * 17.50) / 1000`
    GyroMilliDps,
    /// `-11052026.1 * v + 2606.22253`
    StrainFrontLeft,
    /// `-1401922.44 * v + 92026.0137`
    StrainRearLeft,
    /// `v - 50`
    MinusFifty,
    /// `0.1 * v`
    Tenth,
    /// `0.001 * v`
    Thousandth,
    /// `(v - 65536 if v >= 32768 else v) * 0.001`: a wrapped signed 16-bit
    /// reading in thousandths
    WrappedMilli,
}

/// A resolved MoTeC channel: display and short names, units and calibration.
pub struct ChannelMeta {
    pub display: String,
    pub short: String,
    pub units: String,
    pub convert: Conversion,
}

/// What a `ChannelMeta` holds.
pub struct MetaView {
    pub display: Seq<char>,
    pub short: Seq<char>,
    pub units: Seq<char>,
    pub convert: Conversion,
}

impl View for ChannelMeta {
    type V = MetaView;

    open spec fn view(&self) -> MetaView {
        MetaView { display: self.display@, short: self.short@, units: self.units@, convert: self.convert }
    }
}

pub open spec fn meta_view(display: Seq<char>, short: Seq<char>, units: Seq<char>, convert: Conversion) -> MetaView {
    MetaView { display, short, units, convert }
}

/// The first `min(8, len)` bytes of a name fall on a character boundary,
/// so the name can be cut to a short name.
pub open spec fn fallback_ok(name: Seq<char>) -> bool {
    is_char_boundary(encode_utf8(name), short_len(name))
}

/// Bytes kept of a name cut to a short name: at most 8.
pub open spec fn short_len(name: Seq<char>) -> int {
    let n = encode_utf8(name).len() as usize;
    if n < 8 { n as int } else { 8 }
}

/// A column not in the table keeps its own name, a short name cut to its
/// first 8 bytes, no units and no calibration.
pub open spec fn fallback_meta(name: Seq<char>) -> MetaView {
    MetaView {
        display: name,
        short: decode_utf8(encode_utf8(name).take(short_len(name))),
        units: Seq::empty(),
        convert: Conversion::Identity,
    }
}

/// Channel metadata and calibration, keyed by CSV column name.
pub open spec fn channel_meta(name: Seq<char>) -> MetaView {
    if name == "p_F_brake"@ {
        meta_view("p_F_brake"@, "p_F_brake"@, "kPa"@, Conversion::Identity)
    } else if name == "p_R_brake"@ {
        meta_view("p_R_brake"@, "p_R_brake"@, "kPa"@, Conversion::Identity)
    } else if name == "Steering"@ {
        meta_view("Steering"@, "Steering"@, "deg"@, Conversion::Steering)
    } else if name == "l_FL_damper"@ {
        meta_view("l_FL_damper"@, "l_FL_damper"@, "mm"@, Conversion::DamperFrontLeft)
    } else if name == "l_FR_damper"@ {
        meta_view("l_FR_damper"@, "l_FR_damper"@, "mm"@, Conversion::DamperFrontRight)
    } else if name == "l_RR_damper"@ {
        meta_view("l_RR_damper"@, "l_RR_damper"@, "mm"@, Conversion::DamperRearRight)
    } else if name == "l_RL_damper"@ {
        meta_view("l_RL_damper"@, "l_RL_damper"@, "mm"@, Conversion::DamperRearLeft)
    } else if name == "amp_Batt"@ {
        meta_view("amp_Batt"@, "amp_Batt"@, "A"@, Conversion::Identity)
    } else if name == "v_batt"@ {
        meta_view("v_batt"@, "v_batt"@, "V"@, Conversion::Identity)
    } else if name == "a_Lat"@ {
        meta_view("a_Lat"@, "a_Lat"@, "G"@, Conversion::AccelMilliG)
    } else if name == "a_Long"@ {
        meta_view("a_Long"@, "a_Long"@, "g"@, Conversion::AccelMilliG)
    } else if name == "a_Vert"@ {
        meta_view("a_Vert"@, "a_Vert"@, "g"@, Conversion::AccelMilliG)
    } else if name == "r_Pitch"@ {
        meta_view("r_Pitch"@, "r_Pitch"@, "deg/s"@, Conversion::GyroMilliDps)
    } else if name == "r_Roll"@ {
        meta_view("r_Roll"@, "r_Roll"@, "deg/s"@, Conversion::GyroMilliDps)
    } else if name == "r_Yaw"@ {
        meta_view("r_Yaw"@, "r_Yaw"@, "deg/s"@, Conversion::GyroMilliDps)
    } else if name == "FR_SG"@ {
        meta_view("f_FR_PartTBD"@, "f_FR_PartTBD"@, "raw"@, Conversion::Identity)
    } else if name == "FL_SG"@ {
        meta_view("f_FL_PartTBD"@, "f_FL_PartTBD"@, ""@, Conversion::StrainFrontLeft)
    } else if name == "RL_SG"@ {
        meta_view("f_RL_PartTBD"@, "f_RL_PartTBD"@, ""@, Conversion::StrainRearLeft)
    } else if name == "RR_SG"@ {
        meta_view("f_RR_PartTBD"@, "f_RR_PartTBD"@, ""@, Conversion::Identity)
    } else if name == "t_FL_amb"@ {
        meta_view("t_FL_amb"@, "t_FL_amb"@, "C"@, Conversion::Identity)
    } else if name == "FLW_OBJ"@ {
        meta_view("FL Wheel Object"@, "FLW_Obj"@, ""@, Conversion::Identity)
    } else if name == "r_FL_wheel"@ {
        meta_view("r_FL_wheel"@, "r_FL_wheel"@, "rpm"@, Conversion::Identity)
    } else if name == "t_FR_amb"@ {
        meta_view("t_FR_amb"@, "t_FR_amb"@, "C"@, Conversion::Identity)
    } else if name == "FRW_OBJ"@ {
        meta_view("FR Wheel Object"@, "FRW_Obj"@, ""@, Conversion::Identity)
    } else if name == "r_FR_wheel"@ {
        meta_view("r_FR_wheel"@, "r_FR_wheel"@, "rpm"@, Conversion::Identity)
    } else if name == "t_RR_amb"@ {
        meta_view("t_RR_amb"@, "t_RR_amb"@, "C"@, Conversion::Identity)
    } else if name == "RRW_OBJ"@ {
        meta_view("RR Wheel Object"@, "RRW_Obj"@, ""@, Conversion::Identity)
    } else if name == "r_RR_wheel"@ {
        meta_view("r_RR_wheel"@, "r_RR_wheel"@, "rpm"@, Conversion::Identity)
    } else if name == "t_RL_amb"@ {
        meta_view("t_RL_amb"@, "t_RL_amb"@, "C"@, Conversion::Identity)
    } else if name == "RLW_OBJ"@ {
        meta_view("RL Wheel Object"@, "RLW_Obj"@, ""@, Conversion::Identity)
    } else if name == "r_RL_wheel"@ {
        meta_view("r_RL_wheel"@, "r_RL_wheel"@, "rpm"@, Conversion::Identity)
    } else if name == "BRAKE_FLUID"@ {
        meta_view("Brake Fluid"@, "BrkFluid"@, ""@, Conversion::Identity)
    } else if name == "THROTTLE_LOAD"@ {
        meta_view("Throttle Load"@, "Throttle"@, "%"@, Conversion::Identity)
    } else if name == "BRAKE_LOAD"@ {
        meta_view("Brake Load"@, "Brake"@, "%"@, Conversion::Identity)
    } else if name == "DRS"@ {
        meta_view("DRS"@, "DRS"@, ""@, Conversion::Identity)
    } else if name == "gps_Long"@ {
        meta_view("gps_Long"@, "gps_Long"@, "deg"@, Conversion::Identity)
    } else if name == "gps_Lat"@ {
        meta_view("gps_Lat"@, "gps_Lat"@, "deg"@, Conversion::Identity)
    } else if name == "v_car_gps"@ {
        meta_view("v_car_gps"@, "v_car_gps"@, "km/h"@, Conversion::Identity)
    } else if name == "gps_fix"@ {
        meta_view("gps_fix"@, "gps_fix"@, ""@, Conversion::Identity)
    } else if name == "r_engine"@ {
        meta_view("r_engine"@, "r_engine"@, "rpm"@, Conversion::Identity)
    } else if name == "t_eng_coolant"@ {
        meta_view("t_eng_coolant"@, "t_eng_coolant"@, "C"@, Conversion::MinusFifty)
    } else if name == "t_oil"@ {
        meta_view("t_oil"@, "t_oil"@, "C"@, Conversion::MinusFifty)
    } else if name == "p_oil"@ {
        meta_view("p_oil"@, "p_oil"@, "kPa"@, Conversion::Identity)
    } else if name == "neutral"@ {
        meta_view("neutral"@, "neutral"@, ""@, Conversion::Identity)
    } else if name == "Lamb_1"@ {
        meta_view("Lamb_1"@, "Lamb_1"@, "Lambda"@, Conversion::Identity)
    } else if name == "%_TPS"@ {
        meta_view("%_TPS"@, "%_TPS"@, "%"@, Conversion::Identity)
    } else if name == "n-Gear"@ {
        meta_view("n-Gear"@, "n-Gear"@, ""@, Conversion::Identity)
    } else if name == "v_trans_out"@ {
        meta_view("v_trans_out"@, "v_trans_out"@, "km/h"@, Conversion::Tenth)
    } else if name == "%_APS_main"@ {
        meta_view("%_APS_main"@, "%_APS_main"@, "%"@, Conversion::Tenth)
    } else if name == "p_Fuel"@ {
        meta_view("p_Fuel"@, "p_Fuel"@, "kPa"@, Conversion::Identity)
    } else if name == "n_knock_count"@ {
        meta_view("Knock Count Global"@, "Knock_Cnt"@, ""@, Conversion::Identity)
    } else if name == "d_ign_angle"@ {
        meta_view("Ignition Angle"@, "Ign_Angle"@, "deg"@, Conversion::Identity)
    } else if name == "%_ign_cut"@ {
        meta_view("Ignition Cut"@, "Ign_Cut"@, "%"@, Conversion::Identity)
    } else if name == "%_fuel_cut"@ {
        meta_view("Fuel Cut"@, "Fuel_Cut"@, "%"@, Conversion::Identity)
    } else if name == "r_idle_target"@ {
        meta_view("Idle Target"@, "Idle_Tgt"@, "rpm"@, Conversion::Identity)
    } else if name == "%_lambda_corr"@ {
        meta_view("CL Lambda Fuel Corr"@, "Lam_Corr"@, "%"@, Conversion::Identity)
    } else if name == "Lambda_Target_Err"@ {
        meta_view("Lambda Target Error"@, "Lam_Err"@, ""@, Conversion::Identity)
    } else if name == "in_gear"@ {
        meta_view("In Driving Gear"@, "In_Gear"@, ""@, Conversion::Identity)
    } else if name == "upshift_act"@ {
        meta_view("Aux 5 - UpShift Actuator"@, "UpShift"@, ""@, Conversion::Identity)
    } else if name == "downshift_act"@ {
        meta_view("Aux 8 - DownShift Actuator"@, "DnShift"@, ""@, Conversion::Identity)
    } else if name == "launch_ctrl_stat"@ {
        meta_view("Launch Control Status"@, "Launch"@, ""@, Conversion::Identity)
    } else if name == "eng_fan_1"@ {
        meta_view("Engine Fan 1"@, "Eng_Fan1"@, ""@, Conversion::Identity)
    } else if name == "%_fuel_left"@ {
        meta_view("Fuel Left"@, "Fuel_Lvl"@, "%"@, Conversion::Identity)
    } else if name == "t_fuel_accel"@ {
        meta_view("t_fuel_accel"@, "t_fuel_accel"@, "ms"@, Conversion::Thousandth)
    } else if name == "acc_distance"@ {
        meta_view("acc_distance"@, "acc_distance"@, "km"@, Conversion::Tenth)
    } else if name == "p_MAP"@ {
        meta_view("p_MAP"@, "p_MAP"@, "kPa"@, Conversion::Identity)
    } else if name == "t_MAT"@ {
        meta_view("t_MAT"@, "t_MAT"@, "C"@, Conversion::MinusFifty)
    } else if name == "a_Lat_ecu"@ {
        meta_view("a_Lat_ecu"@, "a_Lat_ecu"@, "g"@, Conversion::WrappedMilli)
    } else if name == "a_Long_ecu"@ {
        meta_view("a_Long_ecu"@, "a_Long_ecu"@, "g"@, Conversion::WrappedMilli)
    } else if name == "a_Vert_ecu"@ {
        meta_view("a_Vert_ecu"@, "a_Vert_ecu"@, "g"@, Conversion::WrappedMilli)
    } else if name == "TESTNO"@ {
        meta_view("Test Number"@, "TestNo"@, ""@, Conversion::Identity)
    } else if name == "DTC_FLW"@ {
        meta_view("DTC FL Wheel"@, "DTC_FLW"@, ""@, Conversion::Identity)
    } else if name == "DTC_FRW"@ {
        meta_view("DTC FR Wheel"@, "DTC_FRW"@, ""@, Conversion::Identity)
    } else if name == "DTC_RLW"@ {
        meta_view("DTC RL Wheel"@, "DTC_RLW"@, ""@, Conversion::Identity)
    } else if name == "DTC_RRW"@ {
        meta_view("DTC RR Wheel"@, "DTC_RRW"@, ""@, Conversion::Identity)
    } else if name == "DTC_FLSG"@ {
        meta_view("DTC FL Strain"@, "DTC_FLSG"@, ""@, Conversion::Identity)
    } else if name == "DTC_FRSG"@ {
        meta_view("DTC FR Strain"@, "DTC_FRSG"@, ""@, Conversion::Identity)
    } else if name == "DTC_RLSG"@ {
        meta_view("DTC RL Strain"@, "DTC_RLSG"@, ""@, Conversion::Identity)
    } else if name == "DTC_RRSG"@ {
        meta_view("DTC RR Strain"@, "DTC_RRSG"@, ""@, Conversion::Identity)
    } else if name == "DTC_IMU"@ {
        meta_view("DTC IMU"@, "DTC_IMU"@, ""@, Conversion::Identity)
    } else if name == "GPS_0_"@ {
        meta_view("GPS 0"@, "GPS_0"@, ""@, Conversion::Identity)
    } else if name == "GPS_1_"@ {
        meta_view("GPS 1"@, "GPS_1"@, ""@, Conversion::Identity)
    } else if name == "FLT_TTA"@ {
        meta_view("FL Tire Temp A"@, "FLT_TTA"@, ""@, Conversion::Identity)
    } else if name == "FLT_TTB"@ {
        meta_view("FL Tire Temp B"@, "FLT_TTB"@, ""@, Conversion::Identity)
    } else if name == "FRT_TTA"@ {
        meta_view("FR Tire Temp A"@, "FRT_TTA"@, ""@, Conversion::Identity)
    } else if name == "FRT_TTB"@ {
        meta_view("FR Tire Temp B"@, "FRT_TTB"@, ""@, Conversion::Identity)
    } else if name == "RLT_TTA"@ {
        meta_view("RL Tire Temp A"@, "RLT_TTA"@, ""@, Conversion::Identity)
    } else if name == "RLT_TTB"@ {
        meta_view("RL Tire Temp B"@, "RLT_TTB"@, ""@, Conversion::Identity)
    } else if name == "RRT_TTA"@ {
        meta_view("RR Tire Temp A"@, "RRT_TTA"@, ""@, Conversion::Identity)
    } else if name == "RRT_TTB"@ {
        meta_view("RR Tire Temp B"@, "RRT_TTB"@, ""@, Conversion::Identity)
    } else if name == "CH_COUNT"@ {
        meta_view("Channel Count"@, "CH_Count"@, ""@, Conversion::Identity)
    } else if name == "FR_Wheel_Speed"@ {
        meta_view("FR Wheel Speed"@, "FR_wspd"@, "km/h"@, Conversion::Identity)
    } else if name == "FL_Wheel_Speed"@ {
        meta_view("FL Wheel Speed"@, "FL_wspd"@, "km/h"@, Conversion::Identity)
    } else {
        fallback_meta(name)
    }
}

/// The calibration and units of every channel of the table, by its CSV
/// column name: the gyro rates (`r_Pitch`, `r_Roll`, `r_Yaw`) in deg/s from
/// milli-dps readings, the accelerations from milli-g readings, the
/// dampers, steering and strain gauges by their fitted lines, and so on.
pub proof fn lemma_channel_calibrations()
    ensures
        channel_meta("p_F_brake"@).convert == Conversion::Identity && channel_meta("p_F_brake"@).units == "kPa"@
            && channel_meta("p_F_brake"@).display == "p_F_brake"@ && channel_meta("p_F_brake"@).short == "p_F_brake"@,
        channel_meta("p_R_brake"@).convert == Conversion::Identity && channel_meta("p_R_brake"@).units == "kPa"@
            && channel_meta("p_R_brake"@).display == "p_R_brake"@ && channel_meta("p_R_brake"@).short == "p_R_brake"@,
        channel_meta("Steering"@).convert == Conversion::Steering && channel_meta("Steering"@).units == "deg"@
            && channel_meta("Steering"@).display == "Steering"@ && channel_meta("Steering"@).short == "Steering"@,
        channel_meta("l_FL_damper"@).convert == Conversion::DamperFrontLeft && channel_meta("l_FL_damper"@).units == "mm"@
            && channel_meta("l_FL_damper"@).display == "l_FL_damper"@ && channel_meta("l_FL_damper"@).short == "l_FL_damper"@,
        channel_meta("l_FR_damper"@).convert == Conversion::DamperFrontRight && channel_meta("l_FR_damper"@).units == "mm"@
            && channel_meta("l_FR_damper"@).display == "l_FR_damper"@ && channel_meta("l_FR_damper"@).short == "l_FR_damper"@,
        channel_meta("l_RR_damper"@).convert == Conversion::DamperRearRight && channel_meta("l_RR_damper"@).units == "mm"@
            && channel_meta("l_RR_damper"@).display == "l_RR_damper"@ && channel_meta("l_RR_damper"@).short == "l_RR_damper"@,
        channel_meta("l_RL_damper"@).convert == Conversion::DamperRearLeft && channel_meta("l_RL_damper"@).units == "mm"@
            && channel_meta("l_RL_damper"@).display == "l_RL_damper"@ && channel_meta("l_RL_damper"@).short == "l_RL_damper"@,
        channel_meta("amp_Batt"@).convert == Conversion::Identity && channel_meta("amp_Batt"@).units == "A"@
            && channel_meta("amp_Batt"@).display == "amp_Batt"@ && channel_meta("amp_Batt"@).short == "amp_Batt"@,
        channel_meta("v_batt"@).convert == Conversion::Identity && channel_meta("v_batt"@).units == "V"@
            && channel_meta("v_batt"@).display == "v_batt"@ && channel_meta("v_batt"@).short == "v_batt"@,
        channel_meta("a_Lat"@).convert == Conversion::AccelMilliG && channel_meta("a_Lat"@).units == "G"@
            && channel_meta("a_Lat"@).display == "a_Lat"@ && channel_meta("a_Lat"@).short == "a_Lat"@,
        channel_meta("a_Long"@).convert == Conversion::AccelMilliG && channel_meta("a_Long"@).units == "g"@
            && channel_meta("a_Long"@).display == "a_Long"@ && channel_meta("a_Long"@).short == "a_Long"@,
        channel_meta("a_Vert"@).convert == Conversion::AccelMilliG && channel_meta("a_Vert"@).units == "g"@
            && channel_meta("a_Vert"@).display == "a_Vert"@ && channel_meta("a_Vert"@).short == "a_Vert"@,
        channel_meta("r_Pitch"@).convert == Conversion::GyroMilliDps && channel_meta("r_Pitch"@).units == "deg/s"@
            && channel_meta("r_Pitch"@).display == "r_Pitch"@ && channel_meta("r_Pitch"@).short == "r_Pitch"@,
        channel_meta("r_Roll"@).convert == Conversion::GyroMilliDps && channel_meta("r_Roll"@).units == "deg/s"@
            && channel_meta("r_Roll"@).display == "r_Roll"@ && channel_meta("r_Roll"@).short == "r_Roll"@,
        channel_meta("r_Yaw"@).convert == Conversion::GyroMilliDps && channel_meta("r_Yaw"@).units == "deg/s"@
            && channel_meta("r_Yaw"@).display == "r_Yaw"@ && channel_meta("r_Yaw"@).short == "r_Yaw"@,
        channel_meta("FR_SG"@).convert == Conversion::Identity && channel_meta("FR_SG"@).units == "raw"@
            && channel_meta("FR_SG"@).display == "f_FR_PartTBD"@ && channel_meta("FR_SG"@).short == "f_FR_PartTBD"@,
        channel_meta("FL_SG"@).convert == Conversion::StrainFrontLeft && channel_meta("FL_SG"@).units == ""@
            && channel_meta("FL_SG"@).display == "f_FL_PartTBD"@ && channel_meta("FL_SG"@).short == "f_FL_PartTBD"@,
        channel_meta("RL_SG"@).convert == Conversion::StrainRearLeft && channel_meta("RL_SG"@).units == ""@
            && channel_meta("RL_SG"@).display == "f_RL_PartTBD"@ && channel_meta("RL_SG"@).short == "f_RL_PartTBD"@,
        channel_meta("RR_SG"@).convert == Conversion::Identity && channel_meta("RR_SG"@).units == ""@
            && channel_meta("RR_SG"@).display == "f_RR_PartTBD"@ && channel_meta("RR_SG"@).short == "f_RR_PartTBD"@,
        channel_meta("t_FL_amb"@).convert == Conversion::Identity && channel_meta("t_FL_amb"@).units == "C"@
            && channel_meta("t_FL_amb"@).display == "t_FL_amb"@ && channel_meta("t_FL_amb"@).short == "t_FL_amb"@,
        channel_meta("FLW_OBJ"@).convert == Conversion::Identity && channel_meta("FLW_OBJ"@).units == ""@
            && channel_meta("FLW_OBJ"@).display == "FL Wheel Object"@ && channel_meta("FLW_OBJ"@).short == "FLW_Obj"@,
        channel_meta("r_FL_wheel"@).convert == Conversion::Identity && channel_meta("r_FL_wheel"@).units == "rpm"@
            && channel_meta("r_FL_wheel"@).display == "r_FL_wheel"@ && channel_meta("r_FL_wheel"@).short == "r_FL_wheel"@,
        channel_meta("t_FR_amb"@).convert == Conversion::Identity && channel_meta("t_FR_amb"@).units == "C"@
            && channel_meta("t_FR_amb"@).display == "t_FR_amb"@ && channel_meta("t_FR_amb"@).short == "t_FR_amb"@,
        channel_meta("FRW_OBJ"@).convert == Conversion::Identity && channel_meta("FRW_OBJ"@).units == ""@
            && channel_meta("FRW_OBJ"@).display == "FR Wheel Object"@ && channel_meta("FRW_OBJ"@).short == "FRW_Obj"@,
        channel_meta("r_FR_wheel"@).convert == Conversion::Identity && channel_meta("r_FR_wheel"@).units == "rpm"@
            && channel_meta("r_FR_wheel"@).display == "r_FR_wheel"@ && channel_meta("r_FR_wheel"@).short == "r_FR_wheel"@,
        channel_meta("t_RR_amb"@).convert == Conversion::Identity && channel_meta("t_RR_amb"@).units == "C"@
            && channel_meta("t_RR_amb"@).display == "t_RR_amb"@ && channel_meta("t_RR_amb"@).short == "t_RR_amb"@,
        channel_meta("RRW_OBJ"@).convert == Conversion::Identity && channel_meta("RRW_OBJ"@).units == ""@
            && channel_meta("RRW_OBJ"@).display == "RR Wheel Object"@ && channel_meta("RRW_OBJ"@).short == "RRW_Obj"@,
        channel_meta("r_RR_wheel"@).convert == Conversion::Identity && channel_meta("r_RR_wheel"@).units == "rpm"@
            && channel_meta("r_RR_wheel"@).display == "r_RR_wheel"@ && channel_meta("r_RR_wheel"@).short == "r_RR_wheel"@,
        channel_meta("t_RL_amb"@).convert == Conversion::Identity && channel_meta("t_RL_amb"@).units == "C"@
            && channel_meta("t_RL_amb"@).display == "t_RL_amb"@ && channel_meta("t_RL_amb"@).short == "t_RL_amb"@,
        channel_meta("RLW_OBJ"@).convert == Conversion::Identity && channel_meta("RLW_OBJ"@).units == ""@
            && channel_meta("RLW_OBJ"@).display == "RL Wheel Object"@ && channel_meta("RLW_OBJ"@).short == "RLW_Obj"@,
        channel_meta("r_RL_wheel"@).convert == Conversion::Identity && channel_meta("r_RL_wheel"@).units == "rpm"@
            && channel_meta("r_RL_wheel"@).display == "r_RL_wheel"@ && channel_meta("r_RL_wheel"@).short == "r_RL_wheel"@,
        channel_meta("BRAKE_FLUID"@).convert == Conversion::Identity && channel_meta("BRAKE_FLUID"@).units == ""@
            && channel_meta("BRAKE_FLUID"@).display == "Brake Fluid"@ && channel_meta("BRAKE_FLUID"@).short == "BrkFluid"@,
        channel_meta("THROTTLE_LOAD"@).convert == Conversion::Identity && channel_meta("THROTTLE_LOAD"@).units == "%"@
            && channel_meta("THROTTLE_LOAD"@).display == "Throttle Load"@ && channel_meta("THROTTLE_LOAD"@).short == "Throttle"@,
        channel_meta("BRAKE_LOAD"@).convert == Conversion::Identity && channel_meta("BRAKE_LOAD"@).units == "%"@
            && channel_meta("BRAKE_LOAD"@).display == "Brake Load"@ && channel_meta("BRAKE_LOAD"@).short == "Brake"@,
        channel_meta("DRS"@).convert == Conversion::Identity && channel_meta("DRS"@).units == ""@
            && channel_meta("DRS"@).display == "DRS"@ && channel_meta("DRS"@).short == "DRS"@,
        channel_meta("gps_Long"@).convert == Conversion::Identity && channel_meta("gps_Long"@).units == "deg"@
            && channel_meta("gps_Long"@).display == "gps_Long"@ && channel_meta("gps_Long"@).short == "gps_Long"@,
        channel_meta("gps_Lat"@).convert == Conversion::Identity && channel_meta("gps_Lat"@).units == "deg"@
            && channel_meta("gps_Lat"@).display == "gps_Lat"@ && channel_meta("gps_Lat"@).short == "gps_Lat"@,
        channel_meta("v_car_gps"@).convert == Conversion::Identity && channel_meta("v_car_gps"@).units == "km/h"@
            && channel_meta("v_car_gps"@).display == "v_car_gps"@ && channel_meta("v_car_gps"@).short == "v_car_gps"@,
        channel_meta("gps_fix"@).convert == Conversion::Identity && channel_meta("gps_fix"@).units == ""@
            && channel_meta("gps_fix"@).display == "gps_fix"@ && channel_meta("gps_fix"@).short == "gps_fix"@,
        channel_meta("r_engine"@).convert == Conversion::Identity && channel_meta("r_engine"@).units == "rpm"@
            && channel_meta("r_engine"@).display == "r_engine"@ && channel_meta("r_engine"@).short == "r_engine"@,
        channel_meta("t_eng_coolant"@).convert == Conversion::MinusFifty && channel_meta("t_eng_coolant"@).units == "C"@
            && channel_meta("t_eng_coolant"@).display == "t_eng_coolant"@ && channel_meta("t_eng_coolant"@).short == "t_eng_coolant"@,
        channel_meta("t_oil"@).convert == Conversion::MinusFifty && channel_meta("t_oil"@).units == "C"@
            && channel_meta("t_oil"@).display == "t_oil"@ && channel_meta("t_oil"@).short == "t_oil"@,
        channel_meta("p_oil"@).convert == Conversion::Identity && channel_meta("p_oil"@).units == "kPa"@
            && channel_meta("p_oil"@).display == "p_oil"@ && channel_meta("p_oil"@).short == "p_oil"@,
        channel_meta("neutral"@).convert == Conversion::Identity && channel_meta("neutral"@).units == ""@
            && channel_meta("neutral"@).display == "neutral"@ && channel_meta("neutral"@).short == "neutral"@,
        channel_meta("Lamb_1"@).convert == Conversion::Identity && channel_meta("Lamb_1"@).units == "Lambda"@
            && channel_meta("Lamb_1"@).display == "Lamb_1"@ && channel_meta("Lamb_1"@).short == "Lamb_1"@,
        channel_meta("%_TPS"@).convert == Conversion::Identity && channel_meta("%_TPS"@).units == "%"@
            && channel_meta("%_TPS"@).display == "%_TPS"@ && channel_meta("%_TPS"@).short == "%_TPS"@,
        channel_meta("n-Gear"@).convert == Conversion::Identity && channel_meta("n-Gear"@).units == ""@
            && channel_meta("n-Gear"@).display == "n-Gear"@ && channel_meta("n-Gear"@).short == "n-Gear"@,
        channel_meta("v_trans_out"@).convert == Conversion::Tenth && channel_meta("v_trans_out"@).units == "km/h"@
            && channel_meta("v_trans_out"@).display == "v_trans_out"@ && channel_meta("v_trans_out"@).short == "v_trans_out"@,
        channel_meta("%_APS_main"@).convert == Conversion::Tenth && channel_meta("%_APS_main"@).units == "%"@
            && channel_meta("%_APS_main"@).display == "%_APS_main"@ && channel_meta("%_APS_main"@).short == "%_APS_main"@,
        channel_meta("p_Fuel"@).convert == Conversion::Identity && channel_meta("p_Fuel"@).units == "kPa"@
            && channel_meta("p_Fuel"@).display == "p_Fuel"@ && channel_meta("p_Fuel"@).short == "p_Fuel"@,
        channel_meta("n_knock_count"@).convert == Conversion::Identity && channel_meta("n_knock_count"@).units == ""@
            && channel_meta("n_knock_count"@).display == "Knock Count Global"@ && channel_meta("n_knock_count"@).short == "Knock_Cnt"@,
        channel_meta("d_ign_angle"@).convert == Conversion::Identity && channel_meta("d_ign_angle"@).units == "deg"@
            && channel_meta("d_ign_angle"@).display == "Ignition Angle"@ && channel_meta("d_ign_angle"@).short == "Ign_Angle"@,
        channel_meta("%_ign_cut"@).convert == Conversion::Identity && channel_meta("%_ign_cut"@).units == "%"@
            && channel_meta("%_ign_cut"@).display == "Ignition Cut"@ && channel_meta("%_ign_cut"@).short == "Ign_Cut"@,
        channel_meta("%_fuel_cut"@).convert == Conversion::Identity && channel_meta("%_fuel_cut"@).units == "%"@
            && channel_meta("%_fuel_cut"@).display == "Fuel Cut"@ && channel_meta("%_fuel_cut"@).short == "Fuel_Cut"@,
        channel_meta("r_idle_target"@).convert == Conversion::Identity && channel_meta("r_idle_target"@).units == "rpm"@
            && channel_meta("r_idle_target"@).display == "Idle Target"@ && channel_meta("r_idle_target"@).short == "Idle_Tgt"@,
        channel_meta("%_lambda_corr"@).convert == Conversion::Identity && channel_meta("%_lambda_corr"@).units == "%"@
            && channel_meta("%_lambda_corr"@).display == "CL Lambda Fuel Corr"@ && channel_meta("%_lambda_corr"@).short == "Lam_Corr"@,
        channel_meta("Lambda_Target_Err"@).convert == Conversion::Identity && channel_meta("Lambda_Target_Err"@).units == ""@
            && channel_meta("Lambda_Target_Err"@).display == "Lambda Target Error"@ && channel_meta("Lambda_Target_Err"@).short == "Lam_Err"@,
        channel_meta("in_gear"@).convert == Conversion::Identity && channel_meta("in_gear"@).units == ""@
            && channel_meta("in_gear"@).display == "In Driving Gear"@ && channel_meta("in_gear"@).short == "In_Gear"@,
        channel_meta("upshift_act"@).convert == Conversion::Identity && channel_meta("upshift_act"@).units == ""@
            && channel_meta("upshift_act"@).display == "Aux 5 - UpShift Actuator"@ && channel_meta("upshift_act"@).short == "UpShift"@,
        channel_meta("downshift_act"@).convert == Conversion::Identity && channel_meta("downshift_act"@).units == ""@
            && channel_meta("downshift_act"@).display == "Aux 8 - DownShift Actuator"@ && channel_meta("downshift_act"@).short == "DnShift"@,
        channel_meta("launch_ctrl_stat"@).convert == Conversion::Identity && channel_meta("launch_ctrl_stat"@).units == ""@
            && channel_meta("launch_ctrl_stat"@).display == "Launch Control Status"@ && channel_meta("launch_ctrl_stat"@).short == "Launch"@,
        channel_meta("eng_fan_1"@).convert == Conversion::Identity && channel_meta("eng_fan_1"@).units == ""@
            && channel_meta("eng_fan_1"@).display == "Engine Fan 1"@ && channel_meta("eng_fan_1"@).short == "Eng_Fan1"@,
        channel_meta("%_fuel_left"@).convert == Conversion::Identity && channel_meta("%_fuel_left"@).units == "%"@
            && channel_meta("%_fuel_left"@).display == "Fuel Left"@ && channel_meta("%_fuel_left"@).short == "Fuel_Lvl"@,
        channel_meta("t_fuel_accel"@).convert == Conversion::Thousandth && channel_meta("t_fuel_accel"@).units == "ms"@
            && channel_meta("t_fuel_accel"@).display == "t_fuel_accel"@ && channel_meta("t_fuel_accel"@).short == "t_fuel_accel"@,
        channel_meta("acc_distance"@).convert == Conversion::Tenth && channel_meta("acc_distance"@).units == "km"@
            && channel_meta("acc_distance"@).display == "acc_distance"@ && channel_meta("acc_distance"@).short == "acc_distance"@,
        channel_meta("p_MAP"@).convert == Conversion::Identity && channel_meta("p_MAP"@).units == "kPa"@
            && channel_meta("p_MAP"@).display == "p_MAP"@ && channel_meta("p_MAP"@).short == "p_MAP"@,
        channel_meta("t_MAT"@).convert == Conversion::MinusFifty && channel_meta("t_MAT"@).units == "C"@
            && channel_meta("t_MAT"@).display == "t_MAT"@ && channel_meta("t_MAT"@).short == "t_MAT"@,
        channel_meta("a_Lat_ecu"@).convert == Conversion::WrappedMilli && channel_meta("a_Lat_ecu"@).units == "g"@
            && channel_meta("a_Lat_ecu"@).display == "a_Lat_ecu"@ && channel_meta("a_Lat_ecu"@).short == "a_Lat_ecu"@,
        channel_meta("a_Long_ecu"@).convert == Conversion::WrappedMilli && channel_meta("a_Long_ecu"@).units == "g"@
            && channel_meta("a_Long_ecu"@).display == "a_Long_ecu"@ && channel_meta("a_Long_ecu"@).short == "a_Long_ecu"@,
        channel_meta("a_Vert_ecu"@).convert == Conversion::WrappedMilli && channel_meta("a_Vert_ecu"@).units == "g"@
            && channel_meta("a_Vert_ecu"@).display == "a_Vert_ecu"@ && channel_meta("a_Vert_ecu"@).short == "a_Vert_ecu"@,
        channel_meta("TESTNO"@).convert == Conversion::Identity && channel_meta("TESTNO"@).units == ""@
            && channel_meta("TESTNO"@).display == "Test Number"@ && channel_meta("TESTNO"@).short == "TestNo"@,
        channel_meta("DTC_FLW"@).convert == Conversion::Identity && channel_meta("DTC_FLW"@).units == ""@
            && channel_meta("DTC_FLW"@).display == "DTC FL Wheel"@ && channel_meta("DTC_FLW"@).short == "DTC_FLW"@,
        channel_meta("DTC_FRW"@).convert == Conversion::Identity && channel_meta("DTC_FRW"@).units == ""@
            && channel_meta("DTC_FRW"@).display == "DTC FR Wheel"@ && channel_meta("DTC_FRW"@).short == "DTC_FRW"@,
        channel_meta("DTC_RLW"@).convert == Conversion::Identity && channel_meta("DTC_RLW"@).units == ""@
            && channel_meta("DTC_RLW"@).display == "DTC RL Wheel"@ && channel_meta("DTC_RLW"@).short == "DTC_RLW"@,
        channel_meta("DTC_RRW"@).convert == Conversion::Identity && channel_meta("DTC_RRW"@).units == ""@
            && channel_meta("DTC_RRW"@).display == "DTC RR Wheel"@ && channel_meta("DTC_RRW"@).short == "DTC_RRW"@,
        channel_meta("DTC_FLSG"@).convert == Conversion::Identity && channel_meta("DTC_FLSG"@).units == ""@
            && channel_meta("DTC_FLSG"@).display == "DTC FL Strain"@ && channel_meta("DTC_FLSG"@).short == "DTC_FLSG"@,
        channel_meta("DTC_FRSG"@).convert == Conversion::Identity && channel_meta("DTC_FRSG"@).units == ""@
            && channel_meta("DTC_FRSG"@).display == "DTC FR Strain"@ && channel_meta("DTC_FRSG"@).short == "DTC_FRSG"@,
        channel_meta("DTC_RLSG"@).convert == Conversion::Identity && channel_meta("DTC_RLSG"@).units == ""@
            && channel_meta("DTC_RLSG"@).display == "DTC RL Strain"@ && channel_meta("DTC_RLSG"@).short == "DTC_RLSG"@,
        channel_meta("DTC_RRSG"@).convert == Conversion::Identity && channel_meta("DTC_RRSG"@).units == ""@
            && channel_meta("DTC_RRSG"@).display == "DTC RR Strain"@ && channel_meta("DTC_RRSG"@).short == "DTC_RRSG"@,
        channel_meta("DTC_IMU"@).convert == Conversion::Identity && channel_meta("DTC_IMU"@).units == ""@
            && channel_meta("DTC_IMU"@).display == "DTC IMU"@ && channel_meta("DTC_IMU"@).short == "DTC_IMU"@,
        channel_meta("GPS_0_"@).convert == Conversion::Identity && channel_meta("GPS_0_"@).units == ""@
            && channel_meta("GPS_0_"@).display == "GPS 0"@ && channel_meta("GPS_0_"@).short == "GPS_0"@,
        channel_meta("GPS_1_"@).convert == Conversion::Identity && channel_meta("GPS_1_"@).units == ""@
            && channel_meta("GPS_1_"@).display == "GPS 1"@ && channel_meta("GPS_1_"@).short == "GPS_1"@,
        channel_meta("FLT_TTA"@).convert == Conversion::Identity && channel_meta("FLT_TTA"@).units == ""@
            && channel_meta("FLT_TTA"@).display == "FL Tire Temp A"@ && channel_meta("FLT_TTA"@).short == "FLT_TTA"@,
        channel_meta("FLT_TTB"@).convert == Conversion::Identity && channel_meta("FLT_TTB"@).units == ""@
            && channel_meta("FLT_TTB"@).display == "FL Tire Temp B"@ && channel_meta("FLT_TTB"@).short == "FLT_TTB"@,
        channel_meta("FRT_TTA"@).convert == Conversion::Identity && channel_meta("FRT_TTA"@).units == ""@
            && channel_meta("FRT_TTA"@).display == "FR Tire Temp A"@ && channel_meta("FRT_TTA"@).short == "FRT_TTA"@,
        channel_meta("FRT_TTB"@).convert == Conversion::Identity && channel_meta("FRT_TTB"@).units == ""@
            && channel_meta("FRT_TTB"@).display == "FR Tire Temp B"@ && channel_meta("FRT_TTB"@).short == "FRT_TTB"@,
        channel_meta("RLT_TTA"@).convert == Conversion::Identity && channel_meta("RLT_TTA"@).units == ""@
            && channel_meta("RLT_TTA"@).display == "RL Tire Temp A"@ && channel_meta("RLT_TTA"@).short == "RLT_TTA"@,
        channel_meta("RLT_TTB"@).convert == Conversion::Identity && channel_meta("RLT_TTB"@).units == ""@
            && channel_meta("RLT_TTB"@).display == "RL Tire Temp B"@ && channel_meta("RLT_TTB"@).short == "RLT_TTB"@,
        channel_meta("RRT_TTA"@).convert == Conversion::Identity && channel_meta("RRT_TTA"@).units == ""@
            && channel_meta("RRT_TTA"@).display == "RR Tire Temp A"@ && channel_meta("RRT_TTA"@).short == "RRT_TTA"@,
        channel_meta("RRT_TTB"@).convert == Conversion::Identity && channel_meta("RRT_TTB"@).units == ""@
            && channel_meta("RRT_TTB"@).display == "RR Tire Temp B"@ && channel_meta("RRT_TTB"@).short == "RRT_TTB"@,
        channel_meta("CH_COUNT"@).convert == Conversion::Identity && channel_meta("CH_COUNT"@).units == ""@
            && channel_meta("CH_COUNT"@).display == "Channel Count"@ && channel_meta("CH_COUNT"@).short == "CH_Count"@,
        channel_meta("FR_Wheel_Speed"@).convert == Conversion::Identity && channel_meta("FR_Wheel_Speed"@).units == "km/h"@
            && channel_meta("FR_Wheel_Speed"@).display == "FR Wheel Speed"@ && channel_meta("FR_Wheel_Speed"@).short == "FR_wspd"@,
        channel_meta("FL_Wheel_Speed"@).convert == Conversion::Identity && channel_meta("FL_Wheel_Speed"@).units == "km/h"@
            && channel_meta("FL_Wheel_Speed"@).display == "FL Wheel Speed"@ && channel_meta("FL_Wheel_Speed"@).short == "FL_wspd"@,
{
    reveal_strlit("f_FR_PartTBD"); reveal_strlit("f_FL_PartTBD"); reveal_strlit("f_RL_PartTBD");
    reveal_strlit("f_RR_PartTBD"); reveal_strlit("FL Wheel Object"); reveal_strlit("FLW_Obj");
    reveal_strlit("FR Wheel Object"); reveal_strlit("FRW_Obj"); reveal_strlit("RR Wheel Object");
    reveal_strlit("RRW_Obj"); reveal_strlit("RL Wheel Object"); reveal_strlit("RLW_Obj");
    reveal_strlit("Brake Fluid"); reveal_strlit("BrkFluid"); reveal_strlit("Throttle Load");
    reveal_strlit("Throttle"); reveal_strlit("Brake Load"); reveal_strlit("Brake");
    reveal_strlit("Knock Count Global"); reveal_strlit("Knock_Cnt");
    reveal_strlit("Ignition Angle"); reveal_strlit("Ign_Angle"); reveal_strlit("Ignition Cut");
    reveal_strlit("Ign_Cut"); reveal_strlit("Fuel Cut"); reveal_strlit("Fuel_Cut");
    reveal_strlit("Idle Target"); reveal_strlit("Idle_Tgt"); reveal_strlit("CL Lambda Fuel Corr");
    reveal_strlit("Lam_Corr"); reveal_strlit("Lambda Target Error"); reveal_strlit("Lam_Err");
    reveal_strlit("In Driving Gear"); reveal_strlit("In_Gear");
    reveal_strlit("Aux 5 - UpShift Actuator"); reveal_strlit("UpShift");
    reveal_strlit("Aux 8 - DownShift Actuator"); reveal_strlit("DnShift");
    reveal_strlit("Launch Control Status"); reveal_strlit("Launch"); reveal_strlit("Engine Fan 1");
    reveal_strlit("Eng_Fan1"); reveal_strlit("Fuel Left"); reveal_strlit("Fuel_Lvl");
    reveal_strlit("Test Number"); reveal_strlit("TestNo"); reveal_strlit("DTC FL Wheel");
    reveal_strlit("DTC FR Wheel"); reveal_strlit("DTC RL Wheel"); reveal_strlit("DTC RR Wheel");
    reveal_strlit("DTC FL Strain"); reveal_strlit("DTC FR Strain"); reveal_strlit("DTC RL Strain");
    reveal_strlit("DTC RR Strain"); reveal_strlit("DTC IMU"); reveal_strlit("GPS 0");
    reveal_strlit("GPS_0"); reveal_strlit("GPS 1"); reveal_strlit("GPS_1");
    reveal_strlit("FL Tire Temp A"); reveal_strlit("FL Tire Temp B");
    reveal_strlit("FR Tire Temp A"); reveal_strlit("FR Tire Temp B");
    reveal_strlit("RL Tire Temp A"); reveal_strlit("RL Tire Temp B");
    reveal_strlit("RR Tire Temp A"); reveal_strlit("RR Tire Temp B");
    reveal_strlit("Channel Count"); reveal_strlit("CH_Count"); reveal_strlit("FR Wheel Speed");
    reveal_strlit("FR_wspd"); reveal_strlit("FL Wheel Speed"); reveal_strlit("FL_wspd");
    reveal_strlit("p_F_brake"); reveal_strlit("p_R_brake"); reveal_strlit("Steering");
    reveal_strlit("l_FL_damper"); reveal_strlit("l_FR_damper"); reveal_strlit("l_RR_damper");
    reveal_strlit("l_RL_damper"); reveal_strlit("amp_Batt"); reveal_strlit("v_batt");
    reveal_strlit("a_Lat"); reveal_strlit("a_Long"); reveal_strlit("a_Vert");
    reveal_strlit("r_Pitch"); reveal_strlit("r_Roll"); reveal_strlit("r_Yaw");
    reveal_strlit("FR_SG"); reveal_strlit("FL_SG"); reveal_strlit("RL_SG"); reveal_strlit("RR_SG");
    reveal_strlit("t_FL_amb"); reveal_strlit("FLW_OBJ"); reveal_strlit("r_FL_wheel");
    reveal_strlit("t_FR_amb"); reveal_strlit("FRW_OBJ"); reveal_strlit("r_FR_wheel");
    reveal_strlit("t_RR_amb"); reveal_strlit("RRW_OBJ"); reveal_strlit("r_RR_wheel");
    reveal_strlit("t_RL_amb"); reveal_strlit("RLW_OBJ"); reveal_strlit("r_RL_wheel");
    reveal_strlit("BRAKE_FLUID"); reveal_strlit("THROTTLE_LOAD"); reveal_strlit("BRAKE_LOAD");
    reveal_strlit("DRS"); reveal_strlit("gps_Long"); reveal_strlit("gps_Lat");
    reveal_strlit("v_car_gps"); reveal_strlit("gps_fix"); reveal_strlit("r_engine");
    reveal_strlit("t_eng_coolant"); reveal_strlit("t_oil"); reveal_strlit("p_oil");
    reveal_strlit("neutral"); reveal_strlit("Lamb_1"); reveal_strlit("%_TPS");
    reveal_strlit("n-Gear"); reveal_strlit("v_trans_out"); reveal_strlit("%_APS_main");
    reveal_strlit("p_Fuel"); reveal_strlit("n_knock_count"); reveal_strlit("d_ign_angle");
    reveal_strlit("%_ign_cut"); reveal_strlit("%_fuel_cut"); reveal_strlit("r_idle_target");
    reveal_strlit("%_lambda_corr"); reveal_strlit("Lambda_Target_Err"); reveal_strlit("in_gear");
    reveal_strlit("upshift_act"); reveal_strlit("downshift_act"); reveal_strlit("launch_ctrl_stat");
    reveal_strlit("eng_fan_1"); reveal_strlit("%_fuel_left"); reveal_strlit("t_fuel_accel");
    reveal_strlit("acc_distance"); reveal_strlit("p_MAP"); reveal_strlit("t_MAT");
    reveal_strlit("a_Lat_ecu"); reveal_strlit("a_Long_ecu"); reveal_strlit("a_Vert_ecu");
    reveal_strlit("TESTNO"); reveal_strlit("DTC_FLW"); reveal_strlit("DTC_FRW");
    reveal_strlit("DTC_RLW"); reveal_strlit("DTC_RRW"); reveal_strlit("DTC_FLSG");
    reveal_strlit("DTC_FRSG"); reveal_strlit("DTC_RLSG"); reveal_strlit("DTC_RRSG");
    reveal_strlit("DTC_IMU"); reveal_strlit("GPS_0_"); reveal_strlit("GPS_1_");
    reveal_strlit("FLT_TTA"); reveal_strlit("FLT_TTB"); reveal_strlit("FRT_TTA");
    reveal_strlit("FRT_TTB"); reveal_strlit("RLT_TTA"); reveal_strlit("RLT_TTB");
    reveal_strlit("RRT_TTA"); reveal_strlit("RRT_TTB"); reveal_strlit("CH_COUNT");
    reveal_strlit("FR_Wheel_Speed"); reveal_strlit("FL_Wheel_Speed"); reveal_strlit("kPa");
    reveal_strlit("deg"); reveal_strlit("mm"); reveal_strlit("A"); reveal_strlit("V");
    reveal_strlit("G"); reveal_strlit("g"); reveal_strlit("deg/s"); reveal_strlit("raw");
    reveal_strlit(""); reveal_strlit("C"); reveal_strlit("rpm"); reveal_strlit("%");
    reveal_strlit("km/h"); reveal_strlit("Lambda"); reveal_strlit("ms"); reveal_strlit("km");
    assert("p_F_brake"@.len() == 9 && "p_R_brake"@.len() == 9 && "Steering"@.len() == 8);
    assert("l_FL_damper"@.len() == 11 && "l_FR_damper"@.len() == 11 && "l_RR_damper"@.len() == 11);
    assert("l_RL_damper"@.len() == 11 && "amp_Batt"@.len() == 8 && "v_batt"@.len() == 6);
    assert("a_Lat"@.len() == 5 && "a_Long"@.len() == 6 && "a_Vert"@.len() == 6);
    assert("r_Pitch"@.len() == 7 && "r_Roll"@.len() == 6 && "r_Yaw"@.len() == 5);
    assert("FR_SG"@.len() == 5 && "FL_SG"@.len() == 5 && "RL_SG"@.len() == 5);
    assert("RR_SG"@.len() == 5 && "t_FL_amb"@.len() == 8 && "FLW_OBJ"@.len() == 7);
    assert("r_FL_wheel"@.len() == 10 && "t_FR_amb"@.len() == 8 && "FRW_OBJ"@.len() == 7);
    assert("r_FR_wheel"@.len() == 10 && "t_RR_amb"@.len() == 8 && "RRW_OBJ"@.len() == 7);
    assert("r_RR_wheel"@.len() == 10 && "t_RL_amb"@.len() == 8 && "RLW_OBJ"@.len() == 7);
    assert("r_RL_wheel"@.len() == 10 && "BRAKE_FLUID"@.len() == 11 && "THROTTLE_LOAD"@.len() == 13);
    assert("BRAKE_LOAD"@.len() == 10 && "DRS"@.len() == 3 && "gps_Long"@.len() == 8);
    assert("gps_Lat"@.len() == 7 && "v_car_gps"@.len() == 9 && "gps_fix"@.len() == 7);
    assert("r_engine"@.len() == 8 && "t_eng_coolant"@.len() == 13 && "t_oil"@.len() == 5);
    assert("p_oil"@.len() == 5 && "neutral"@.len() == 7 && "Lamb_1"@.len() == 6);
    assert("%_TPS"@.len() == 5 && "n-Gear"@.len() == 6 && "v_trans_out"@.len() == 11);
    assert("%_APS_main"@.len() == 10 && "p_Fuel"@.len() == 6 && "n_knock_count"@.len() == 13);
    assert("d_ign_angle"@.len() == 11 && "%_ign_cut"@.len() == 9 && "%_fuel_cut"@.len() == 10);
    assert("r_idle_target"@.len() == 13 && "%_lambda_corr"@.len() == 13);
    assert("Lambda_Target_Err"@.len() == 17 && "in_gear"@.len() == 7 && "upshift_act"@.len() == 11);
    assert("downshift_act"@.len() == 13 && "launch_ctrl_stat"@.len() == 16);
    assert("eng_fan_1"@.len() == 9 && "%_fuel_left"@.len() == 11 && "t_fuel_accel"@.len() == 12);
    assert("acc_distance"@.len() == 12 && "p_MAP"@.len() == 5 && "t_MAT"@.len() == 5);
    assert("a_Lat_ecu"@.len() == 9 && "a_Long_ecu"@.len() == 10 && "a_Vert_ecu"@.len() == 10);
    assert("TESTNO"@.len() == 6 && "DTC_FLW"@.len() == 7 && "DTC_FRW"@.len() == 7);
    assert("DTC_RLW"@.len() == 7 && "DTC_RRW"@.len() == 7 && "DTC_FLSG"@.len() == 8);
    assert("DTC_FRSG"@.len() == 8 && "DTC_RLSG"@.len() == 8 && "DTC_RRSG"@.len() == 8);
    assert("DTC_IMU"@.len() == 7 && "GPS_0_"@.len() == 6 && "GPS_1_"@.len() == 6);
    assert("FLT_TTA"@.len() == 7 && "FLT_TTB"@.len() == 7 && "FRT_TTA"@.len() == 7);
    assert("FRT_TTB"@.len() == 7 && "RLT_TTA"@.len() == 7 && "RLT_TTB"@.len() == 7);
    assert("RRT_TTA"@.len() == 7 && "RRT_TTB"@.len() == 7 && "CH_COUNT"@.len() == 8);
    assert("FR_Wheel_Speed"@.len() == 14 && "FL_Wheel_Speed"@.len() == 14);
    assert("p_R_brake"@[2] == 'R' && "p_F_brake"@[2] == 'F' && "l_FR_damper"@[3] == 'R');
    assert("l_FL_damper"@[3] == 'L' && "l_RR_damper"@[2] == 'R' && "l_FL_damper"@[2] == 'F');
    assert("l_FR_damper"@[2] == 'F' && "l_RL_damper"@[2] == 'R' && "l_RL_damper"@[3] == 'L');
    assert("l_RR_damper"@[3] == 'R' && "amp_Batt"@[0] == 'a' && "Steering"@[0] == 'S');
    assert("a_Long"@[0] == 'a' && "v_batt"@[0] == 'v' && "a_Vert"@[0] == 'a');
    assert("a_Vert"@[2] == 'V' && "a_Long"@[2] == 'L' && "r_Roll"@[0] == 'r' && "r_Yaw"@[0] == 'r');
    assert("a_Lat"@[0] == 'a' && "FR_SG"@[0] == 'F' && "FL_SG"@[0] == 'F' && "FL_SG"@[1] == 'L');
    assert("FR_SG"@[1] == 'R' && "RL_SG"@[0] == 'R' && "RR_SG"@[0] == 'R' && "RR_SG"@[1] == 'R');
    assert("RL_SG"@[1] == 'L' && "t_FL_amb"@[0] == 't' && "FLW_OBJ"@[0] == 'F');
    assert("r_Pitch"@[0] == 'r' && "t_FR_amb"@[0] == 't' && "t_FR_amb"@[3] == 'R');
    assert("t_FL_amb"@[3] == 'L' && "FRW_OBJ"@[0] == 'F' && "FRW_OBJ"@[1] == 'R');
    assert("FLW_OBJ"@[1] == 'L' && "r_FR_wheel"@[3] == 'R' && "r_FL_wheel"@[3] == 'L');
    assert("t_RR_amb"@[0] == 't' && "t_RR_amb"@[2] == 'R' && "t_FL_amb"@[2] == 'F');
    assert("t_FR_amb"@[2] == 'F' && "RRW_OBJ"@[0] == 'R' && "r_RR_wheel"@[2] == 'R');
    assert("r_FL_wheel"@[2] == 'F' && "r_FR_wheel"@[2] == 'F' && "t_RL_amb"@[0] == 't');
    assert("t_RL_amb"@[2] == 'R' && "t_RL_amb"@[3] == 'L' && "t_RR_amb"@[3] == 'R');
    assert("RLW_OBJ"@[0] == 'R' && "RLW_OBJ"@[1] == 'L' && "RRW_OBJ"@[1] == 'R');
    assert("r_RL_wheel"@[2] == 'R' && "r_RL_wheel"@[3] == 'L' && "r_RR_wheel"@[3] == 'R');
    assert("BRAKE_FLUID"@[0] == 'B' && "l_FL_damper"@[0] == 'l' && "l_FR_damper"@[0] == 'l');
    assert("l_RR_damper"@[0] == 'l' && "l_RL_damper"@[0] == 'l' && "BRAKE_LOAD"@[0] == 'B');
    assert("r_FL_wheel"@[0] == 'r' && "r_FR_wheel"@[0] == 'r' && "r_RR_wheel"@[0] == 'r');
    assert("r_RL_wheel"@[0] == 'r' && "gps_Long"@[0] == 'g' && "gps_Lat"@[0] == 'g');
    assert("v_car_gps"@[0] == 'v' && "p_F_brake"@[0] == 'p' && "p_R_brake"@[0] == 'p');
    assert("gps_fix"@[0] == 'g' && "gps_fix"@[4] == 'f' && "gps_Lat"@[4] == 'L');
    assert("r_engine"@[0] == 'r' && "t_eng_coolant"@[0] == 't' && "THROTTLE_LOAD"@[0] == 'T');
    assert("t_oil"@[0] == 't' && "p_oil"@[0] == 'p' && "neutral"@[0] == 'n' && "Lamb_1"@[0] == 'L');
    assert("%_TPS"@[0] == '%' && "n-Gear"@[0] == 'n' && "v_trans_out"@[0] == 'v');
    assert("%_APS_main"@[0] == '%' && "p_Fuel"@[0] == 'p' && "n_knock_count"@[0] == 'n');
    assert("d_ign_angle"@[0] == 'd' && "%_ign_cut"@[0] == '%' && "%_fuel_cut"@[0] == '%');
    assert("%_fuel_cut"@[2] == 'f' && "%_APS_main"@[2] == 'A' && "r_idle_target"@[0] == 'r');
    assert("%_lambda_corr"@[0] == '%' && "in_gear"@[0] == 'i' && "upshift_act"@[0] == 'u');
    assert("downshift_act"@[0] == 'd' && "eng_fan_1"@[0] == 'e' && "%_fuel_left"@[0] == '%');
    assert("acc_distance"@[0] == 'a' && "t_fuel_accel"@[0] == 't' && "p_MAP"@[0] == 'p');
    assert("p_MAP"@[2] == 'M' && "p_oil"@[2] == 'o' && "t_MAT"@[0] == 't' && "t_MAT"@[2] == 'M');
    assert("t_oil"@[2] == 'o' && "a_Lat_ecu"@[0] == 'a' && "a_Long_ecu"@[0] == 'a');
    assert("a_Vert_ecu"@[0] == 'a' && "a_Vert_ecu"@[2] == 'V' && "a_Long_ecu"@[2] == 'L');
    assert("TESTNO"@[0] == 'T' && "DTC_FLW"@[0] == 'D' && "DTC_FRW"@[0] == 'D');
    assert("DTC_FRW"@[5] == 'R' && "DTC_FLW"@[5] == 'L' && "DTC_RLW"@[0] == 'D');
    assert("DTC_RLW"@[4] == 'R' && "DTC_FLW"@[4] == 'F' && "DTC_FRW"@[4] == 'F');
    assert("DTC_RRW"@[0] == 'D' && "DTC_RRW"@[4] == 'R' && "DTC_RRW"@[5] == 'R');
    assert("DTC_RLW"@[5] == 'L' && "DTC_FLSG"@[0] == 'D' && "DTC_FRSG"@[0] == 'D');
    assert("DTC_FRSG"@[5] == 'R' && "DTC_FLSG"@[5] == 'L' && "DTC_RLSG"@[0] == 'D');
    assert("DTC_RLSG"@[4] == 'R' && "DTC_FLSG"@[4] == 'F' && "DTC_FRSG"@[4] == 'F');
    assert("DTC_RRSG"@[0] == 'D' && "DTC_RRSG"@[4] == 'R' && "DTC_RRSG"@[5] == 'R');
    assert("DTC_RLSG"@[5] == 'L' && "DTC_IMU"@[0] == 'D' && "DTC_IMU"@[4] == 'I');
    assert("GPS_0_"@[0] == 'G' && "GPS_1_"@[0] == 'G' && "GPS_1_"@[4] == '1');
    assert("GPS_0_"@[4] == '0' && "FLT_TTA"@[0] == 'F' && "FLT_TTA"@[2] == 'T');
    assert("FLW_OBJ"@[2] == 'W' && "FLT_TTA"@[1] == 'L' && "FLT_TTB"@[0] == 'F');
    assert("FLT_TTB"@[2] == 'T' && "FLT_TTB"@[1] == 'L' && "FLT_TTB"@[6] == 'B');
    assert("FLT_TTA"@[6] == 'A' && "FRT_TTA"@[0] == 'F' && "FRT_TTA"@[1] == 'R');
    assert("FRT_TTA"@[2] == 'T' && "FRW_OBJ"@[2] == 'W' && "FRT_TTB"@[0] == 'F');
    assert("FRT_TTB"@[1] == 'R' && "FRT_TTB"@[2] == 'T' && "FRT_TTB"@[6] == 'B');
    assert("FRT_TTA"@[6] == 'A' && "RLT_TTA"@[0] == 'R' && "RLT_TTA"@[1] == 'L');
    assert("RLT_TTA"@[2] == 'T' && "RLW_OBJ"@[2] == 'W' && "RLT_TTB"@[0] == 'R');
    assert("RLT_TTB"@[1] == 'L' && "RLT_TTB"@[2] == 'T' && "RLT_TTB"@[6] == 'B');
    assert("RLT_TTA"@[6] == 'A' && "RRT_TTA"@[0] == 'R' && "RRT_TTA"@[2] == 'T');
    assert("RRW_OBJ"@[2] == 'W' && "RRT_TTA"@[1] == 'R' && "RRT_TTB"@[0] == 'R');
    assert("RRT_TTB"@[2] == 'T' && "RRT_TTB"@[1] == 'R' && "RRT_TTB"@[6] == 'B');
    assert("RRT_TTA"@[6] == 'A' && "CH_COUNT"@[0] == 'C' && "FL_Wheel_Speed"@[1] == 'L');
    assert("FR_Wheel_Speed"@[1] == 'R');
}

impl ChannelMeta {
    fn new(display: &str, short: &str, units: &str, convert: Conversion) -> (r: ChannelMeta)
        ensures
            r@ == meta_view(display@, short@, units@, convert),
    {
        ChannelMeta { display: display.to_owned(), short: short.to_owned(), units: units.to_owned(), convert }
    }
}

/// Channel metadata + calibration for a CSV column name; a name not in the
/// table falls back to itself (see `fallback_meta`).
pub fn lookup(name: &str) -> (r: ChannelMeta)
    requires
        fallback_ok(name@),
    ensures
        r@ == channel_meta(name@),
{
    if str_eq(name, "p_F_brake") {
        return ChannelMeta::new("p_F_brake", "p_F_brake", "kPa", Conversion::Identity);
    }
    if str_eq(name, "p_R_brake") {
        return ChannelMeta::new("p_R_brake", "p_R_brake", "kPa", Conversion::Identity);
    }
    if str_eq(name, "Steering") {
        return ChannelMeta::new("Steering", "Steering", "deg", Conversion::Steering);
    }
    if str_eq(name, "l_FL_damper") {
        return ChannelMeta::new("l_FL_damper", "l_FL_damper", "mm", Conversion::DamperFrontLeft);
    }
    if str_eq(name, "l_FR_damper") {
        return ChannelMeta::new("l_FR_damper", "l_FR_damper", "mm", Conversion::DamperFrontRight);
    }
    if str_eq(name, "l_RR_damper") {
        return ChannelMeta::new("l_RR_damper", "l_RR_damper", "mm", Conversion::DamperRearRight);
    }
    if str_eq(name, "l_RL_damper") {
        return ChannelMeta::new("l_RL_damper", "l_RL_damper", "mm", Conversion::DamperRearLeft);
    }
    if str_eq(name, "amp_Batt") {
        return ChannelMeta::new("amp_Batt", "amp_Batt", "A", Conversion::Identity);
    }
    if str_eq(name, "v_batt") {
        return ChannelMeta::new("v_batt", "v_batt", "V", Conversion::Identity);
    }
    if str_eq(name, "a_Lat") {
        return ChannelMeta::new("a_Lat", "a_Lat", "G", Conversion::AccelMilliG);
    }
    if str_eq(name, "a_Long") {
        return ChannelMeta::new("a_Long", "a_Long", "g", Conversion::AccelMilliG);
    }
    if str_eq(name, "a_Vert") {
        return ChannelMeta::new("a_Vert", "a_Vert", "g", Conversion::AccelMilliG);
    }
    if str_eq(name, "r_Pitch") {
        return ChannelMeta::new("r_Pitch", "r_Pitch", "deg/s", Conversion::GyroMilliDps);
    }
    if str_eq(name, "r_Roll") {
        return ChannelMeta::new("r_Roll", "r_Roll", "deg/s", Conversion::GyroMilliDps);
    }
    if str_eq(name, "r_Yaw") {
        return ChannelMeta::new("r_Yaw", "r_Yaw", "deg/s", Conversion::GyroMilliDps);
    }
    if str_eq(name, "FR_SG") {
        return ChannelMeta::new("f_FR_PartTBD", "f_FR_PartTBD", "raw", Conversion::Identity);
    }
    if str_eq(name, "FL_SG") {
        return ChannelMeta::new("f_FL_PartTBD", "f_FL_PartTBD", "", Conversion::StrainFrontLeft);
    }
    if str_eq(name, "RL_SG") {
        return ChannelMeta::new("f_RL_PartTBD", "f_RL_PartTBD", "", Conversion::StrainRearLeft);
    }
    if str_eq(name, "RR_SG") {
        return ChannelMeta::new("f_RR_PartTBD", "f_RR_PartTBD", "", Conversion::Identity);
    }
    if str_eq(name, "t_FL_amb") {
        return ChannelMeta::new("t_FL_amb", "t_FL_amb", "C", Conversion::Identity);
    }
    if str_eq(name, "FLW_OBJ") {
        return ChannelMeta::new("FL Wheel Object", "FLW_Obj", "", Conversion::Identity);
    }
    if str_eq(name, "r_FL_wheel") {
        return ChannelMeta::new("r_FL_wheel", "r_FL_wheel", "rpm", Conversion::Identity);
    }
    if str_eq(name, "t_FR_amb") {
        return ChannelMeta::new("t_FR_amb", "t_FR_amb", "C", Conversion::Identity);
    }
    if str_eq(name, "FRW_OBJ") {
        return ChannelMeta::new("FR Wheel Object", "FRW_Obj", "", Conversion::Identity);
    }
    if str_eq(name, "r_FR_wheel") {
        return ChannelMeta::new("r_FR_wheel", "r_FR_wheel", "rpm", Conversion::Identity);
    }
    if str_eq(name, "t_RR_amb") {
        return ChannelMeta::new("t_RR_amb", "t_RR_amb", "C", Conversion::Identity);
    }
    if str_eq(name, "RRW_OBJ") {
        return ChannelMeta::new("RR Wheel Object", "RRW_Obj", "", Conversion::Identity);
    }
    if str_eq(name, "r_RR_wheel") {
        return ChannelMeta::new("r_RR_wheel", "r_RR_wheel", "rpm", Conversion::Identity);
    }
    if str_eq(name, "t_RL_amb") {
        return ChannelMeta::new("t_RL_amb", "t_RL_amb", "C", Conversion::Identity);
    }
    if str_eq(name, "RLW_OBJ") {
        return ChannelMeta::new("RL Wheel Object", "RLW_Obj", "", Conversion::Identity);
    }
    if str_eq(name, "r_RL_wheel") {
        return ChannelMeta::new("r_RL_wheel", "r_RL_wheel", "rpm", Conversion::Identity);
    }
    if str_eq(name, "BRAKE_FLUID") {
        return ChannelMeta::new("Brake Fluid", "BrkFluid", "", Conversion::Identity);
    }
    if str_eq(name, "THROTTLE_LOAD") {
        return ChannelMeta::new("Throttle Load", "Throttle", "%", Conversion::Identity);
    }
    if str_eq(name, "BRAKE_LOAD") {
        return ChannelMeta::new("Brake Load", "Brake", "%", Conversion::Identity);
    }
    if str_eq(name, "DRS") {
        return ChannelMeta::new("DRS", "DRS", "", Conversion::Identity);
    }
    if str_eq(name, "gps_Long") {
        return ChannelMeta::new("gps_Long", "gps_Long", "deg", Conversion::Identity);
    }
    if str_eq(name, "gps_Lat") {
        return ChannelMeta::new("gps_Lat", "gps_Lat", "deg", Conversion::Identity);
    }
    if str_eq(name, "v_car_gps") {
        return ChannelMeta::new("v_car_gps", "v_car_gps", "km/h", Conversion::Identity);
    }
    if str_eq(name, "gps_fix") {
        return ChannelMeta::new("gps_fix", "gps_fix", "", Conversion::Identity);
    }
    if str_eq(name, "r_engine") {
        return ChannelMeta::new("r_engine", "r_engine", "rpm", Conversion::Identity);
    }
    if str_eq(name, "t_eng_coolant") {
        return ChannelMeta::new("t_eng_coolant", "t_eng_coolant", "C", Conversion::MinusFifty);
    }
    if str_eq(name, "t_oil") {
        return ChannelMeta::new("t_oil", "t_oil", "C", Conversion::MinusFifty);
    }
    if str_eq(name, "p_oil") {
        return ChannelMeta::new("p_oil", "p_oil", "kPa", Conversion::Identity);
    }
    if str_eq(name, "neutral") {
        return ChannelMeta::new("neutral", "neutral", "", Conversion::Identity);
    }
    if str_eq(name, "Lamb_1") {
        return ChannelMeta::new("Lamb_1", "Lamb_1", "Lambda", Conversion::Identity);
    }
    if str_eq(name, "%_TPS") {
        return ChannelMeta::new("%_TPS", "%_TPS", "%", Conversion::Identity);
    }
    if str_eq(name, "n-Gear") {
        return ChannelMeta::new("n-Gear", "n-Gear", "", Conversion::Identity);
    }
    if str_eq(name, "v_trans_out") {
        return ChannelMeta::new("v_trans_out", "v_trans_out", "km/h", Conversion::Tenth);
    }
    if str_eq(name, "%_APS_main") {
        return ChannelMeta::new("%_APS_main", "%_APS_main", "%", Conversion::Tenth);
    }
    if str_eq(name, "p_Fuel") {
        return ChannelMeta::new("p_Fuel", "p_Fuel", "kPa", Conversion::Identity);
    }
    if str_eq(name, "n_knock_count") {
        return ChannelMeta::new("Knock Count Global", "Knock_Cnt", "", Conversion::Identity);
    }
    if str_eq(name, "d_ign_angle") {
        return ChannelMeta::new("Ignition Angle", "Ign_Angle", "deg", Conversion::Identity);
    }
    if str_eq(name, "%_ign_cut") {
        return ChannelMeta::new("Ignition Cut", "Ign_Cut", "%", Conversion::Identity);
    }
    if str_eq(name, "%_fuel_cut") {
        return ChannelMeta::new("Fuel Cut", "Fuel_Cut", "%", Conversion::Identity);
    }
    if str_eq(name, "r_idle_target") {
        return ChannelMeta::new("Idle Target", "Idle_Tgt", "rpm", Conversion::Identity);
    }
    if str_eq(name, "%_lambda_corr") {
        return ChannelMeta::new("CL Lambda Fuel Corr", "Lam_Corr", "%", Conversion::Identity);
    }
    if str_eq(name, "Lambda_Target_Err") {
        return ChannelMeta::new("Lambda Target Error", "Lam_Err", "", Conversion::Identity);
    }
    if str_eq(name, "in_gear") {
        return ChannelMeta::new("In Driving Gear", "In_Gear", "", Conversion::Identity);
    }
    if str_eq(name, "upshift_act") {
        return ChannelMeta::new("Aux 5 - UpShift Actuator", "UpShift", "", Conversion::Identity);
    }
    if str_eq(name, "downshift_act") {
        return ChannelMeta::new("Aux 8 - DownShift Actuator", "DnShift", "", Conversion::Identity);
    }
    if str_eq(name, "launch_ctrl_stat") {
        return ChannelMeta::new("Launch Control Status", "Launch", "", Conversion::Identity);
    }
    if str_eq(name, "eng_fan_1") {
        return ChannelMeta::new("Engine Fan 1", "Eng_Fan1", "", Conversion::Identity);
    }
    if str_eq(name, "%_fuel_left") {
        return ChannelMeta::new("Fuel Left", "Fuel_Lvl", "%", Conversion::Identity);
    }
    if str_eq(name, "t_fuel_accel") {
        return ChannelMeta::new("t_fuel_accel", "t_fuel_accel", "ms", Conversion::Thousandth);
    }
    if str_eq(name, "acc_distance") {
        return ChannelMeta::new("acc_distance", "acc_distance", "km", Conversion::Tenth);
    }
    if str_eq(name, "p_MAP") {
        return ChannelMeta::new("p_MAP", "p_MAP", "kPa", Conversion::Identity);
    }
    if str_eq(name, "t_MAT") {
        return ChannelMeta::new("t_MAT", "t_MAT", "C", Conversion::MinusFifty);
    }
    if str_eq(name, "a_Lat_ecu") {
        return ChannelMeta::new("a_Lat_ecu", "a_Lat_ecu", "g", Conversion::WrappedMilli);
    }
    if str_eq(name, "a_Long_ecu") {
        return ChannelMeta::new("a_Long_ecu", "a_Long_ecu", "g", Conversion::WrappedMilli);
    }
    if str_eq(name, "a_Vert_ecu") {
        return ChannelMeta::new("a_Vert_ecu", "a_Vert_ecu", "g", Conversion::WrappedMilli);
    }
    if str_eq(name, "TESTNO") {
        return ChannelMeta::new("Test Number", "TestNo", "", Conversion::Identity);
    }
    if str_eq(name, "DTC_FLW") {
        return ChannelMeta::new("DTC FL Wheel", "DTC_FLW", "", Conversion::Identity);
    }
    if str_eq(name, "DTC_FRW") {
        return ChannelMeta::new("DTC FR Wheel", "DTC_FRW", "", Conversion::Identity);
    }
    if str_eq(name, "DTC_RLW") {
        return ChannelMeta::new("DTC RL Wheel", "DTC_RLW", "", Conversion::Identity);
    }
    if str_eq(name, "DTC_RRW") {
        return ChannelMeta::new("DTC RR Wheel", "DTC_RRW", "", Conversion::Identity);
    }
    if str_eq(name, "DTC_FLSG") {
        return ChannelMeta::new("DTC FL Strain", "DTC_FLSG", "", Conversion::Identity);
    }
    if str_eq(name, "DTC_FRSG") {
        return ChannelMeta::new("DTC FR Strain", "DTC_FRSG", "", Conversion::Identity);
    }
    if str_eq(name, "DTC_RLSG") {
        return ChannelMeta::new("DTC RL Strain", "DTC_RLSG", "", Conversion::Identity);
    }
    if str_eq(name, "DTC_RRSG") {
        return ChannelMeta::new("DTC RR Strain", "DTC_RRSG", "", Conversion::Identity);
    }
    if str_eq(name, "DTC_IMU") {
        return ChannelMeta::new("DTC IMU", "DTC_IMU", "", Conversion::Identity);
    }
    if str_eq(name, "GPS_0_") {
        return ChannelMeta::new("GPS 0", "GPS_0", "", Conversion::Identity);
    }
    if str_eq(name, "GPS_1_") {
        return ChannelMeta::new("GPS 1", "GPS_1", "", Conversion::Identity);
    }
    if str_eq(name, "FLT_TTA") {
        return ChannelMeta::new("FL Tire Temp A", "FLT_TTA", "", Conversion::Identity);
    }
    if str_eq(name, "FLT_TTB") {
        return ChannelMeta::new("FL Tire Temp B", "FLT_TTB", "", Conversion::Identity);
    }
    if str_eq(name, "FRT_TTA") {
        return ChannelMeta::new("FR Tire Temp A", "FRT_TTA", "", Conversion::Identity);
    }
    if str_eq(name, "FRT_TTB") {
        return ChannelMeta::new("FR Tire Temp B", "FRT_TTB", "", Conversion::Identity);
    }
    if str_eq(name, "RLT_TTA") {
        return ChannelMeta::new("RL Tire Temp A", "RLT_TTA", "", Conversion::Identity);
    }
    if str_eq(name, "RLT_TTB") {
        return ChannelMeta::new("RL Tire Temp B", "RLT_TTB", "", Conversion::Identity);
    }
    if str_eq(name, "RRT_TTA") {
        return ChannelMeta::new("RR Tire Temp A", "RRT_TTA", "", Conversion::Identity);
    }
    if str_eq(name, "RRT_TTB") {
        return ChannelMeta::new("RR Tire Temp B", "RRT_TTB", "", Conversion::Identity);
    }
    if str_eq(name, "CH_COUNT") {
        return ChannelMeta::new("Channel Count", "CH_Count", "", Conversion::Identity);
    }
    if str_eq(name, "FR_Wheel_Speed") {
        return ChannelMeta::new("FR Wheel Speed", "FR_wspd", "km/h", Conversion::Identity);
    }
    if str_eq(name, "FL_Wheel_Speed") {
        return ChannelMeta::new("FL Wheel Speed", "FL_wspd", "km/h", Conversion::Identity);
    }
    fallback(name)
}

fn fallback(name: &str) -> (r: ChannelMeta)
    requires
        fallback_ok(name@),
    ensures
        r@ == fallback_meta(name@),
{
    let len = name.len();
    assert(name.spec_bytes() == encode_utf8(name@));
    let k = if len < 8 { len } else { 8 };
    let (head, _tail) = name.split_at(k);
    assert(head.spec_bytes() == encode_utf8(head@));
    assert(encode_utf8(head@) =~= encode_utf8(name@).take(k as int));
    assert(decode_utf8(encode_utf8(head@)) == head@);
    ChannelMeta { display: name.to_owned(), short: head.to_owned(), units: String::new(), convert: Conversion::Identity }
}


/// Channels the CSV keeps but that are not meaningful in MoTeC.
pub open spec fn excluded(name: Seq<char>) -> bool {
    eq_ascii_case(name, "reset_reason"@) || eq_ascii_case(name, "RESET_REASON"@)
}

/// Whether a column is left out of the `.ld` file.
pub fn is_excluded(name: &str) -> (r: bool)
    ensures
        r == excluded(name@),
{
    eq_ignore_ascii_case("reset_reason", name) || eq_ignore_ascii_case("RESET_REASON", name)
}

/// The column holds the timestamps (`timestamp` in any letter case).
pub open spec fn is_timestamp(name: Seq<char>) -> bool {
    eq_ascii_case(name, "timestamp"@)
}

/// Index of the first timestamp column.
pub open spec fn timestamp_index(cols: Seq<String>) -> Option<int>
    decreases cols.len(),
{
    if cols.len() == 0 {
        None
    } else {
        match timestamp_index(cols.drop_last()) {
            Some(i) => Some(i),
            None => if is_timestamp(cols.last()@) { Some(cols.len() - 1) } else { None },
        }
    }
}

proof fn lemma_timestamp_index_prefix(cols: Seq<String>, i: int)
    requires
        0 <= i < cols.len(),
    ensures
        timestamp_index(cols.take(i + 1)) == match timestamp_index(cols.take(i)) {
            Some(j) => Some(j),
            None => if is_timestamp(cols[i]@) { Some(i) } else { None },
        },
{
    assert(cols.take(i + 1).drop_last() =~= cols.take(i));
}

fn find_timestamp(cols: &Vec<String>) -> (r: Option<usize>)
    ensures
        match r {
            Some(i) => timestamp_index(cols@) == Some(i as int),
            None => timestamp_index(cols@) is None,
        },
{
    let mut i: usize = 0;
    assert(cols@.take(0) =~= Seq::<String>::empty());
    while i < cols.len()
        invariant
            i <= cols@.len(),
            timestamp_index(cols@.take(i as int)) is None,
        decreases cols@.len() - i,
    {
        proof {
            lemma_timestamp_index_prefix(cols@, i as int);
        }
        if eq_ignore_ascii_case(cols[i].as_str(), "timestamp") {
            proof {
                reveal_strlit("timestamp");
                assert(is_timestamp(cols@[i as int]@)) by {
                    assert(eq_ascii_case("timestamp"@, cols@[i as int]@));
                }
                lemma_timestamp_prefix_stable(cols@, i as int + 1);
            }
            return Some(i);
        }
        proof {
            assert(!is_timestamp(cols@[i as int]@)) by {
                if is_timestamp(cols@[i as int]@) {
                    assert(eq_ascii_case(cols@[i as int]@, "timestamp"@));
                }
            }
        }
        i += 1;
    }
    assert(cols@.take(cols@.len() as int) =~= cols@);
    None
}

/// A timestamp column found in a prefix stays the first one.
proof fn lemma_timestamp_prefix_stable(cols: Seq<String>, k: int)
    requires
        0 <= k <= cols.len(),
        timestamp_index(cols.take(k)) is Some,
    ensures
        timestamp_index(cols) == timestamp_index(cols.take(k)),
    decreases cols.len() - k,
{
    if k < cols.len() {
        lemma_timestamp_index_prefix(cols, k);
        lemma_timestamp_prefix_stable(cols, k + 1);
    } else {
        assert(cols.take(k) =~= cols);
    }
}

/// The cell of a row at a column, if the row is that long.
pub open spec fn cell(row: Vec<String>, idx: int) -> Option<Seq<char>> {
    if 0 <= idx < row@.len() { Some(row@[idx]@) } else { None }
}

/// The cells the sample rate is read from: with a timestamp column and at
/// least two rows that both reach it, the first and the last row's cells
/// in that column; else none.
pub open spec fn rate_cells(p: &ParsedLog) -> Option<(String, String)> {
    match timestamp_index(p.columns@) {
        None => None,
        Some(idx) => if p.rows@.len() < 2 {
            None
        } else if idx < p.rows@[0]@.len() && idx < p.rows@.last()@.len() {
            Some((p.rows@[0]@[idx], p.rows@.last()@[idx]))
        } else {
            None
        },
    }
}

/// Average sample rate from the `timestamp` column (milliseconds): what
/// `rate` gives for the first and last timestamps (see `rate_cells`) and
/// the number of rows; none when there are no such cells. `rate` reads the
/// timestamps and divides in floating point, which this library does not
/// hold.
pub fn infer_freq_hz<F: Fn(&String, &String, usize) -> Option<u16>>(parsed: &ParsedLog, rate: F) -> (r: Option<u16>)
    requires
        forall|first: &String, last: &String, rows: usize| rate.requires((first, last, rows)),
    ensures
        match rate_cells(parsed) {
            None => r is None,
            Some((first, last)) => rate.ensures((&first, &last, parsed.rows@.len() as usize), r),
        },
{
    let idx = match find_timestamp(&parsed.columns) {
        Some(i) => i,
        None => return None,
    };
    let n = parsed.rows.len();
    if n < 2 {
        return None;
    }
    let first_row = &parsed.rows[0];
    let last_row = &parsed.rows[n - 1];
    if idx >= first_row.len() || idx >= last_row.len() {
        return None;
    }
    rate(&first_row[idx], &last_row[idx], n)
}

/// The column indices, in order, below `k` that become channels: every
/// column but the timestamp column and the excluded ones.
pub open spec fn kept_columns(cols: Seq<String>, k: int) -> Seq<int>
    decreases k,
{
    if k <= 0 {
        Seq::empty()
    } else {
        let before = kept_columns(cols, k - 1);
        if timestamp_index(cols) != Some(k - 1) && !excluded(cols[k - 1]@) { before.push(k - 1) } else { before }
    }
}

proof fn lemma_kept_columns_bound(cols: Seq<String>, k: int)
    requires
        0 <= k <= cols.len(),
    ensures
        kept_columns(cols, k).len() <= k,
        forall|j: int| 0 <= j < kept_columns(cols, k).len() ==> 0 <= #[trigger] kept_columns(cols, k)[j] < k,
    decreases k,
{
    if k > 0 {
        lemma_kept_columns_bound(cols, k - 1);
    }
}

/// The columns that become channels, in order.
pub fn channel_columns(parsed: &ParsedLog) -> (r: Vec<usize>)
    ensures
        r@.map_values(|i: usize| i as int) == kept_columns(parsed.columns@, parsed.columns@.len() as int),
{
    let ts = find_timestamp(&parsed.columns);
    let mut out: Vec<usize> = Vec::new();
    let mut k: usize = 0;
    while k < parsed.columns.len()
        invariant
            k <= parsed.columns@.len(),
            match ts {
                Some(i) => timestamp_index(parsed.columns@) == Some(i as int),
                None => timestamp_index(parsed.columns@) is None,
            },
            out@.map_values(|i: usize| i as int) == kept_columns(parsed.columns@, k as int),
        decreases parsed.columns@.len() - k,
    {
        let is_ts = match ts {
            Some(i) => i == k,
            None => false,
        };
        let ghost before = out@;
        if !is_ts && !is_excluded(parsed.columns[k].as_str()) {
            out.push(k);
            assert(out@.map_values(|i: usize| i as int) =~= before.map_values(|i: usize| i as int).push(k as int));
        }
        k += 1;
    }
    out
}

/// The rate given to every channel: the inferred one, else 20 Hz (the
/// logger's own rate).
pub open spec fn channel_rate(rate: Option<u16>) -> u16 {
    match rate {
        Some(f) => f,
        None => 20,
    }
}

/// Every kept column has one sample per row.
pub open spec fn one_per_row(p: &ParsedLog, samples: Seq<Vec<u32>>) -> bool {
    forall|k: int| 0 <= k < samples.len() ==> (#[trigger] samples[k])@.len() == p.rows@.len()
}

/// The `.ld` document for a parsed log whose kept columns have the given
/// samples (as `f32` bit patterns), with the given inferred rate, on the
/// given date and time.
pub open spec fn ld_document(p: &ParsedLog, samples: Seq<Vec<u32>>, rate: Option<u16>, date: Seq<char>, time: Seq<char>) -> LdDocView {
    let kept = kept_columns(p.columns@, p.columns@.len() as int);
    let n = kept.len();
    LdDocView {
        driver: "Driver"@,
        vehicle: "SDM26"@,
        venue: "Track"@,
        comment: decimal_chars(n) + " channels, logger firmware export"@,
        event_name: "Full Data Session"@,
        event_session: "All channels"@,
        event_comment: decimal_chars(n) + " channels"@,
        date,
        time,
        channels: Seq::new(n, |k: int| {
            let meta = channel_meta(p.columns@[kept[k]]@);
            LdChannelView {
                name: meta.display,
                short_name: meta.short,
                units: meta.units,
                freq_hz: channel_rate(rate),
                samples: samples[k]@,
            }
        }),
    }
}

/// Every kept column's name can be cut to a short name.
pub open spec fn names_ok(p: &ParsedLog) -> bool {
    let kept = kept_columns(p.columns@, p.columns@.len() as int);
    forall|k: int| 0 <= k < kept.len() ==> fallback_ok(#[trigger] p.columns@[kept[k]]@)
}

/// The `.ld` file of a parsed log, given the samples of each kept column (in
/// the order of `channel_columns`, as `f32` bit patterns, one per row), the
/// rate inferred from its timestamps (`infer_freq_hz`), and the date and
/// time to stamp it with.
pub fn build_ld_at(parsed: &ParsedLog, samples: &Vec<Vec<u32>>, rate: Option<u16>, date: &str, time: &str) -> (r: Vec<u8>)
    requires
        samples@.len() == kept_columns(parsed.columns@, parsed.columns@.len() as int).len(),
        one_per_row(parsed, samples@),
        names_ok(parsed),
        writable(ld_document(parsed, samples@, rate, date@, time@)),
    ensures
        r@ == ld_bytes(ld_document(parsed, samples@, rate, date@, time@)),
{
    let freq = match rate {
        Some(f) => f,
        None => 20,
    };
    let cols = channel_columns(parsed);
    let ghost kept = kept_columns(parsed.columns@, parsed.columns@.len() as int);
    proof {
        lemma_kept_columns_bound(parsed.columns@, parsed.columns@.len() as int);
        assert(cols@.len() == kept.len());
    }
    let n = cols.len();
    let mut channels: Vec<LdChannel> = Vec::new();
    let mut k: usize = 0;
    while k < n
        invariant
            k <= n,
            n == cols@.len(),
            n == kept.len(),
            samples@.len() == n,
            kept == kept_columns(parsed.columns@, parsed.columns@.len() as int),
            cols@.map_values(|i: usize| i as int) == kept,
            forall|j: int| 0 <= j < kept.len() ==> 0 <= #[trigger] kept[j] < parsed.columns@.len(),
            names_ok(parsed),
            freq == channel_rate(rate),
            channels@.len() == k,
            forall|j: int| 0 <= j < k ==> (#[trigger] channels@[j])@ == ld_document(parsed, samples@, rate, date@, time@).channels[j],
        decreases n - k,
    {
        let col = cols[k];
        assert(col as int == kept[k as int]);
        let meta = lookup(parsed.columns[col].as_str());
        let ch = LdChannel {
            name: meta.display,
            short_name: meta.short,
            units: meta.units,
            freq_hz: freq,
            samples: samples[k].clone(),
        };
        channels.push(ch);
        k += 1;
    }
    let count = decimal_text(n as u64);
    let mut comment = count.clone();
    comment.append(" channels, logger firmware export");
    let mut event_comment = count;
    event_comment.append(" channels");
    let doc = LdDocument {
        driver: "Driver".to_owned(),
        vehicle: "SDM26".to_owned(),
        venue: "Track".to_owned(),
        comment,
        event_name: "Full Data Session".to_owned(),
        event_session: "All channels".to_owned(),
        event_comment,
        date: date.to_owned(),
        time: time.to_owned(),
        channels,
    };
    assert(doc@.channels =~= ld_document(parsed, samples@, rate, date@, time@).channels);
    assert(doc@ == ld_document(parsed, samples@, rate, date@, time@));
    doc.to_bytes()
}


#[verifier::external_type_specification]
#[verifier::external_body]
pub struct ExNaiveDateTime(chrono::NaiveDateTime);

/// `chrono::Local::now`, as the local wall-clock date and time
/// (`naive_local`). It depends on the clock: nothing is stated of it.
#[verifier::external_body]
fn local_now() -> chrono::NaiveDateTime {
    chrono::Local::now().naive_local()
}

/// A decimal digit at `i`.
pub open spec fn digit_at(s: Seq<char>, i: int) -> bool {
    0 <= i < s.len() && is_digit(s[i])
}

/// The two-digit number at `i`, between `lo` and `hi`.
pub open spec fn two_digits_in(s: Seq<char>, i: int, lo: int, hi: int) -> bool {
    &&& digit_at(s, i)
    &&& digit_at(s, i + 1)
    &&& lo <= (s[i] as int - 48) * 10 + (s[i + 1] as int - 48) <= hi
}

/// A year as `%Y` writes it: four digits, or a sign and at least four
/// digits.
pub open spec fn year_text(y: Seq<char>) -> bool {
    ||| y.len() == 4 && forall|k: int| 0 <= k < 4 ==> is_digit(#[trigger] y[k])
    ||| y.len() >= 5 && (y[0] == '+' || y[0] == '-') && forall|k: int| 1 <= k < y.len() ==> is_digit(#[trigger] y[k])
}

/// A date as `%d/%m/%Y` writes it.
pub open spec fn date_text(s: Seq<char>) -> bool {
    &&& s.len() >= 10
    &&& two_digits_in(s, 0, 1, 31)
    &&& s[2] == '/'
    &&& two_digits_in(s, 3, 1, 12)
    &&& s[5] == '/'
    &&& year_text(s.skip(6))
}

/// A time as `%H:%M:%S` writes it (a leap second reads 60).
pub open spec fn time_text(s: Seq<char>) -> bool {
    &&& s.len() == 8
    &&& two_digits_in(s, 0, 0, 23)
    &&& s[2] == ':'
    &&& two_digits_in(s, 3, 0, 59)
    &&& s[5] == ':'
    &&& two_digits_in(s, 6, 0, 60)
}

/// `chrono::NaiveDateTime::format` with a strftime pattern, rendered to a
/// `String`; only the two patterns of the `.ld` header are passed. Stated:
/// the shape of the text (two-digit day, month, hour, minute and second in
/// their ranges, the year's digits); not stated: which date and time it
/// writes.
#[verifier::external_body]
fn format_date_time(t: &chrono::NaiveDateTime, pattern: &str) -> (r: String)
    requires
        pattern@ == "%d/%m/%Y"@ || pattern@ == "%H:%M:%S"@,
    ensures
        pattern@ == "%d/%m/%Y"@ ==> date_text(r@),
        pattern@ == "%H:%M:%S"@ ==> time_text(r@),
{
    t.format(pattern).to_string()
}

/// The document of a parsed log fits the `.ld` format's 16-bit channel ids
/// and 32-bit offsets (this does not depend on the date and time).
pub open spec fn exportable(p: &ParsedLog, samples: Seq<Vec<u32>>) -> bool {
    writable(ld_document(p, samples, None, Seq::empty(), Seq::empty()))
}

/// Builds a `.ld` file from a parsed log (see `build_ld_at`), stamped with
/// the current local date (`dd/mm/yyyy`) and time (`HH:MM:SS`).
pub fn build_ld(parsed: &ParsedLog, samples: &Vec<Vec<u32>>, rate: Option<u16>) -> (r: Vec<u8>)
    requires
        samples@.len() == kept_columns(parsed.columns@, parsed.columns@.len() as int).len(),
        one_per_row(parsed, samples@),
        names_ok(parsed),
        exportable(parsed, samples@),
    ensures
        exists|date: Seq<char>, time: Seq<char>|
            date_text(date) && time_text(time) && r@ == ld_bytes(ld_document(parsed, samples@, rate, date, time)),
{
    let now = local_now();
    let date = format_date_time(&now, "%d/%m/%Y");
    let time = format_date_time(&now, "%H:%M:%S");
    proof {
        let d1 = ld_document(parsed, samples@, rate, date@, time@);
        let d0 = ld_document(parsed, samples@, None, Seq::empty(), Seq::empty());
        lemma_total_samples(parsed, samples@, rate, date@, time@, samples@.len() as int);
        lemma_total_samples(parsed, samples@, None, Seq::empty(), Seq::empty(), samples@.len() as int);
        assert(d1.channels.take(samples@.len() as int) =~= d1.channels);
        assert(d0.channels.take(samples@.len() as int) =~= d0.channels);
        assert(writable(d1));
    }
    let r = build_ld_at(parsed, samples, rate, date.as_str(), time.as_str());
    assert(r@ == ld_bytes(ld_document(parsed, samples@, rate, date@, time@)));
    r
}


/// The number of samples of the first `k` channels.
pub open spec fn sample_count(samples: Seq<Vec<u32>>, k: int) -> nat
    decreases k,
{
    if k <= 0 { 0 } else { sample_count(samples, k - 1) + samples[k - 1]@.len() }
}

proof fn lemma_total_samples(p: &ParsedLog, samples: Seq<Vec<u32>>, rate: Option<u16>, date: Seq<char>, time: Seq<char>, k: int)
    requires
        samples.len() == kept_columns(p.columns@, p.columns@.len() as int).len(),
        0 <= k <= samples.len(),
    ensures
        total_samples(ld_document(p, samples, rate, date, time).channels.take(k)) == sample_count(samples, k),
    decreases k,
{
    let chs = ld_document(p, samples, rate, date, time).channels;
    if k > 0 {
        lemma_total_samples(p, samples, rate, date, time, k - 1);
        assert(chs.take(k).drop_last() =~= chs.take(k - 1));
    } else {
        assert(chs.take(0) =~= Seq::<LdChannelView>::empty());
    }
}

/// Whether a parsed log with the given samples can be exported: every
/// channel name can be cut to a short name, and the document fits the `.ld`
/// format (`names_ok` and `exportable`).
pub fn can_export(parsed: &ParsedLog, samples: &Vec<Vec<u32>>) -> (r: bool)
    requires
        samples@.len() == kept_columns(parsed.columns@, parsed.columns@.len() as int).len(),
    ensures
        r == (names_ok(parsed) && exportable(parsed, samples@)),
{
    let cols = channel_columns(parsed);
    let ghost kept = kept_columns(parsed.columns@, parsed.columns@.len() as int);
    proof {
        lemma_kept_columns_bound(parsed.columns@, parsed.columns@.len() as int);
    }
    let n = cols.len();
    assert(n == kept.len());
    let mut k: usize = 0;
    while k < n
        invariant
            k <= n,
            n == cols@.len(),
            n == kept.len(),
            kept == kept_columns(parsed.columns@, parsed.columns@.len() as int),
            cols@.map_values(|i: usize| i as int) == kept,
            forall|j: int| 0 <= j < kept.len() ==> 0 <= #[trigger] kept[j] < parsed.columns@.len(),
            forall|j: int| 0 <= j < k ==> fallback_ok(#[trigger] parsed.columns@[kept[j]]@),
        decreases n - k,
    {
        let col = cols[k];
        assert(col as int == kept[k as int]);
        let name = parsed.columns[col].as_str();
        let cut = if name.len() < 8 { name.len() } else { 8 };
        if !name.is_char_boundary(cut) {
            return false;
        }
        k += 1;
    }
    assert(names_ok(parsed));
    if n > MAX_CHANNELS {
        return false;
    }
    let start: u64 = if n > 0 { (LOG_HEADER_SIZE + EVENT_SIZE + n * CHANNEL_HEADER_SIZE) as u64 } else { 0 };
    let room: u64 = (u32::MAX as u64 - start) / 4;
    let mut total: u64 = 0;
    let mut i: usize = 0;
    while i < n
        invariant
            i <= n,
            n == samples@.len(),
            samples@.len() == kept_columns(parsed.columns@, parsed.columns@.len() as int).len(),
            n <= MAX_CHANNELS,
            start as int == crate::ld::first_data_pos(n as nat),
            room == (u32::MAX as u64 - start) / 4,
            names_ok(parsed),
            total == sample_count(samples@, i as int),
            total <= room,
        decreases n - i,
    {
        let len = samples[i].len() as u64;
        if len > room - total {
            proof {
                lemma_sample_count_grows(samples@, i as int + 1, n as int);
                lemma_total_samples(parsed, samples@, None, Seq::empty(), Seq::empty(), n as int);
                assert(ld_document(parsed, samples@, None, Seq::empty(), Seq::empty()).channels.take(n as int)
                    =~= ld_document(parsed, samples@, None, Seq::empty(), Seq::empty()).channels);
            }
            return false;
        }
        total = total + len;
        i += 1;
    }
    proof {
        lemma_total_samples(parsed, samples@, None, Seq::empty(), Seq::empty(), n as int);
        assert(ld_document(parsed, samples@, None, Seq::empty(), Seq::empty()).channels.take(n as int)
            =~= ld_document(parsed, samples@, None, Seq::empty(), Seq::empty()).channels);
    }
    true
}

proof fn lemma_sample_count_grows(samples: Seq<Vec<u32>>, i: int, j: int)
    requires
        0 <= i <= j <= samples.len(),
    ensures
        sample_count(samples, i) <= sample_count(samples, j),
    decreases j - i,
{
    if i < j {
        lemma_sample_count_grows(samples, i, j - 1);
    }
}


/// Two exports of one log at different moments give files of one length
/// that differ at most in the two 16-byte fields of the date and time.
pub proof fn lemma_exports_differ_only_in_stamp(
    p: &ParsedLog,
    samples: Seq<Vec<u32>>,
    rate: Option<u16>,
    date1: Seq<char>,
    time1: Seq<char>,
    date2: Seq<char>,
    time2: Seq<char>,
)
    ensures
        agree_off_stamp(ld_bytes(ld_document(p, samples, rate, date1, time1)), ld_bytes(ld_document(p, samples, rate, date2, time2))),
{
    let d1 = ld_document(p, samples, rate, date1, time1);
    lemma_stamp_fields(d1, date2, time2);
    assert(LdDocView { date: date2, time: time2, ..d1 } == ld_document(p, samples, rate, date2, time2));
}

} // verus!
