//! The ioctls a command can name.
use vstd::prelude::*;

verus! {

/// A V4L2 ioctl, by the number in its request code.
#[allow(non_camel_case_types)]
#[derive(Clone, Copy, Debug, PartialEq, Eq, Structural)]
pub enum V4l2Ioctl {
    VIDIOC_QUERYCAP,
    VIDIOC_ENUM_FMT,
    VIDIOC_G_FMT,
    VIDIOC_S_FMT,
    VIDIOC_REQBUFS,
    VIDIOC_QUERYBUF,
    VIDIOC_G_FBUF,
    VIDIOC_S_FBUF,
    VIDIOC_OVERLAY,
    VIDIOC_QBUF,
    VIDIOC_EXPBUF,
    VIDIOC_DQBUF,
    VIDIOC_STREAMON,
    VIDIOC_STREAMOFF,
    VIDIOC_G_PARM,
    VIDIOC_S_PARM,
    VIDIOC_G_STD,
    VIDIOC_S_STD,
    VIDIOC_ENUMSTD,
    VIDIOC_ENUMINPUT,
    VIDIOC_G_CTRL,
    VIDIOC_S_CTRL,
    VIDIOC_G_TUNER,
    VIDIOC_S_TUNER,
    VIDIOC_G_AUDIO,
    VIDIOC_S_AUDIO,
    VIDIOC_QUERYCTRL,
    VIDIOC_QUERYMENU,
    VIDIOC_G_INPUT,
    VIDIOC_S_INPUT,
    VIDIOC_G_EDID,
    VIDIOC_S_EDID,
    VIDIOC_G_OUTPUT,
    VIDIOC_S_OUTPUT,
    VIDIOC_ENUMOUTPUT,
    VIDIOC_G_AUDOUT,
    VIDIOC_S_AUDOUT,
    VIDIOC_G_MODULATOR,
    VIDIOC_S_MODULATOR,
    VIDIOC_G_FREQUENCY,
    VIDIOC_S_FREQUENCY,
    VIDIOC_CROPCAP,
    VIDIOC_G_CROP,
    VIDIOC_S_CROP,
    VIDIOC_G_JPEGCOMP,
    VIDIOC_S_JPEGCOMP,
    VIDIOC_QUERYSTD,
    VIDIOC_TRY_FMT,
    VIDIOC_ENUMAUDIO,
    VIDIOC_ENUMAUDOUT,
    VIDIOC_G_PRIORITY,
    VIDIOC_S_PRIORITY,
    VIDIOC_G_SLICED_VBI_CAP,
    VIDIOC_LOG_STATUS,
    VIDIOC_G_EXT_CTRLS,
    VIDIOC_S_EXT_CTRLS,
    VIDIOC_TRY_EXT_CTRLS,
    VIDIOC_ENUM_FRAMESIZES,
    VIDIOC_ENUM_FRAMEINTERVALS,
    VIDIOC_G_ENC_INDEX,
    VIDIOC_ENCODER_CMD,
    VIDIOC_TRY_ENCODER_CMD,
    VIDIOC_DBG_S_REGISTER,
    VIDIOC_DBG_G_REGISTER,
    VIDIOC_S_HW_FREQ_SEEK,
    VIDIOC_S_DV_TIMINGS,
    VIDIOC_G_DV_TIMINGS,
    VIDIOC_DQEVENT,
    VIDIOC_SUBSCRIBE_EVENT,
    VIDIOC_UNSUBSCRIBE_EVENT,
    VIDIOC_CREATE_BUFS,
    VIDIOC_PREPARE_BUF,
    VIDIOC_G_SELECTION,
    VIDIOC_S_SELECTION,
    VIDIOC_DECODER_CMD,
    VIDIOC_TRY_DECODER_CMD,
    VIDIOC_ENUM_DV_TIMINGS,
    VIDIOC_QUERY_DV_TIMINGS,
    VIDIOC_DV_TIMINGS_CAP,
    VIDIOC_ENUM_FREQ_BANDS,
    VIDIOC_DBG_G_CHIP_INFO,
    VIDIOC_QUERY_EXT_CTRL,
}

impl V4l2Ioctl {
    /// The number of the ioctl.
    pub open spec fn code(self) -> u32 {
        match self {
            V4l2Ioctl::VIDIOC_QUERYCAP => 0,
            V4l2Ioctl::VIDIOC_ENUM_FMT => 2,
            V4l2Ioctl::VIDIOC_G_FMT => 4,
            V4l2Ioctl::VIDIOC_S_FMT => 5,
            V4l2Ioctl::VIDIOC_REQBUFS => 8,
            V4l2Ioctl::VIDIOC_QUERYBUF => 9,
            V4l2Ioctl::VIDIOC_G_FBUF => 10,
            V4l2Ioctl::VIDIOC_S_FBUF => 11,
            V4l2Ioctl::VIDIOC_OVERLAY => 14,
            V4l2Ioctl::VIDIOC_QBUF => 15,
            V4l2Ioctl::VIDIOC_EXPBUF => 16,
            V4l2Ioctl::VIDIOC_DQBUF => 17,
            V4l2Ioctl::VIDIOC_STREAMON => 18,
            V4l2Ioctl::VIDIOC_STREAMOFF => 19,
            V4l2Ioctl::VIDIOC_G_PARM => 21,
            V4l2Ioctl::VIDIOC_S_PARM => 22,
            V4l2Ioctl::VIDIOC_G_STD => 23,
            V4l2Ioctl::VIDIOC_S_STD => 24,
            V4l2Ioctl::VIDIOC_ENUMSTD => 25,
            V4l2Ioctl::VIDIOC_ENUMINPUT => 26,
            V4l2Ioctl::VIDIOC_G_CTRL => 27,
            V4l2Ioctl::VIDIOC_S_CTRL => 28,
            V4l2Ioctl::VIDIOC_G_TUNER => 29,
            V4l2Ioctl::VIDIOC_S_TUNER => 30,
            V4l2Ioctl::VIDIOC_G_AUDIO => 33,
            V4l2Ioctl::VIDIOC_S_AUDIO => 34,
            V4l2Ioctl::VIDIOC_QUERYCTRL => 36,
            V4l2Ioctl::VIDIOC_QUERYMENU => 37,
            V4l2Ioctl::VIDIOC_G_INPUT => 38,
            V4l2Ioctl::VIDIOC_S_INPUT => 39,
            V4l2Ioctl::VIDIOC_G_EDID => 40,
            V4l2Ioctl::VIDIOC_S_EDID => 41,
            V4l2Ioctl::VIDIOC_G_OUTPUT => 46,
            V4l2Ioctl::VIDIOC_S_OUTPUT => 47,
            V4l2Ioctl::VIDIOC_ENUMOUTPUT => 48,
            V4l2Ioctl::VIDIOC_G_AUDOUT => 49,
            V4l2Ioctl::VIDIOC_S_AUDOUT => 50,
            V4l2Ioctl::VIDIOC_G_MODULATOR => 54,
            V4l2Ioctl::VIDIOC_S_MODULATOR => 55,
            V4l2Ioctl::VIDIOC_G_FREQUENCY => 56,
            V4l2Ioctl::VIDIOC_S_FREQUENCY => 57,
            V4l2Ioctl::VIDIOC_CROPCAP => 58,
            V4l2Ioctl::VIDIOC_G_CROP => 59,
            V4l2Ioctl::VIDIOC_S_CROP => 60,
            V4l2Ioctl::VIDIOC_G_JPEGCOMP => 61,
            V4l2Ioctl::VIDIOC_S_JPEGCOMP => 62,
            V4l2Ioctl::VIDIOC_QUERYSTD => 63,
            V4l2Ioctl::VIDIOC_TRY_FMT => 64,
            V4l2Ioctl::VIDIOC_ENUMAUDIO => 65,
            V4l2Ioctl::VIDIOC_ENUMAUDOUT => 66,
            V4l2Ioctl::VIDIOC_G_PRIORITY => 67,
            V4l2Ioctl::VIDIOC_S_PRIORITY => 68,
            V4l2Ioctl::VIDIOC_G_SLICED_VBI_CAP => 69,
            V4l2Ioctl::VIDIOC_LOG_STATUS => 70,
            V4l2Ioctl::VIDIOC_G_EXT_CTRLS => 71,
            V4l2Ioctl::VIDIOC_S_EXT_CTRLS => 72,
            V4l2Ioctl::VIDIOC_TRY_EXT_CTRLS => 73,
            V4l2Ioctl::VIDIOC_ENUM_FRAMESIZES => 74,
            V4l2Ioctl::VIDIOC_ENUM_FRAMEINTERVALS => 75,
            V4l2Ioctl::VIDIOC_G_ENC_INDEX => 76,
            V4l2Ioctl::VIDIOC_ENCODER_CMD => 77,
            V4l2Ioctl::VIDIOC_TRY_ENCODER_CMD => 78,
            V4l2Ioctl::VIDIOC_DBG_S_REGISTER => 79,
            V4l2Ioctl::VIDIOC_DBG_G_REGISTER => 80,
            V4l2Ioctl::VIDIOC_S_HW_FREQ_SEEK => 82,
            V4l2Ioctl::VIDIOC_S_DV_TIMINGS => 87,
            V4l2Ioctl::VIDIOC_G_DV_TIMINGS => 88,
            V4l2Ioctl::VIDIOC_DQEVENT => 89,
            V4l2Ioctl::VIDIOC_SUBSCRIBE_EVENT => 90,
            V4l2Ioctl::VIDIOC_UNSUBSCRIBE_EVENT => 91,
            V4l2Ioctl::VIDIOC_CREATE_BUFS => 92,
            V4l2Ioctl::VIDIOC_PREPARE_BUF => 93,
            V4l2Ioctl::VIDIOC_G_SELECTION => 94,
            V4l2Ioctl::VIDIOC_S_SELECTION => 95,
            V4l2Ioctl::VIDIOC_DECODER_CMD => 96,
            V4l2Ioctl::VIDIOC_TRY_DECODER_CMD => 97,
            V4l2Ioctl::VIDIOC_ENUM_DV_TIMINGS => 98,
            V4l2Ioctl::VIDIOC_QUERY_DV_TIMINGS => 99,
            V4l2Ioctl::VIDIOC_DV_TIMINGS_CAP => 100,
            V4l2Ioctl::VIDIOC_ENUM_FREQ_BANDS => 101,
            V4l2Ioctl::VIDIOC_DBG_G_CHIP_INFO => 102,
            V4l2Ioctl::VIDIOC_QUERY_EXT_CTRL => 103,
        }
    }

    /// The ioctl a number stands for.
    pub open spec fn of(v: u32) -> Option<V4l2Ioctl> {
        match v {
            0 => Some(V4l2Ioctl::VIDIOC_QUERYCAP),
            2 => Some(V4l2Ioctl::VIDIOC_ENUM_FMT),
            4 => Some(V4l2Ioctl::VIDIOC_G_FMT),
            5 => Some(V4l2Ioctl::VIDIOC_S_FMT),
            8 => Some(V4l2Ioctl::VIDIOC_REQBUFS),
            9 => Some(V4l2Ioctl::VIDIOC_QUERYBUF),
            10 => Some(V4l2Ioctl::VIDIOC_G_FBUF),
            11 => Some(V4l2Ioctl::VIDIOC_S_FBUF),
            14 => Some(V4l2Ioctl::VIDIOC_OVERLAY),
            15 => Some(V4l2Ioctl::VIDIOC_QBUF),
            16 => Some(V4l2Ioctl::VIDIOC_EXPBUF),
            17 => Some(V4l2Ioctl::VIDIOC_DQBUF),
            18 => Some(V4l2Ioctl::VIDIOC_STREAMON),
            19 => Some(V4l2Ioctl::VIDIOC_STREAMOFF),
            21 => Some(V4l2Ioctl::VIDIOC_G_PARM),
            22 => Some(V4l2Ioctl::VIDIOC_S_PARM),
            23 => Some(V4l2Ioctl::VIDIOC_G_STD),
            24 => Some(V4l2Ioctl::VIDIOC_S_STD),
            25 => Some(V4l2Ioctl::VIDIOC_ENUMSTD),
            26 => Some(V4l2Ioctl::VIDIOC_ENUMINPUT),
            27 => Some(V4l2Ioctl::VIDIOC_G_CTRL),
            28 => Some(V4l2Ioctl::VIDIOC_S_CTRL),
            29 => Some(V4l2Ioctl::VIDIOC_G_TUNER),
            30 => Some(V4l2Ioctl::VIDIOC_S_TUNER),
            33 => Some(V4l2Ioctl::VIDIOC_G_AUDIO),
            34 => Some(V4l2Ioctl::VIDIOC_S_AUDIO),
            36 => Some(V4l2Ioctl::VIDIOC_QUERYCTRL),
            37 => Some(V4l2Ioctl::VIDIOC_QUERYMENU),
            38 => Some(V4l2Ioctl::VIDIOC_G_INPUT),
            39 => Some(V4l2Ioctl::VIDIOC_S_INPUT),
            40 => Some(V4l2Ioctl::VIDIOC_G_EDID),
            41 => Some(V4l2Ioctl::VIDIOC_S_EDID),
            46 => Some(V4l2Ioctl::VIDIOC_G_OUTPUT),
            47 => Some(V4l2Ioctl::VIDIOC_S_OUTPUT),
            48 => Some(V4l2Ioctl::VIDIOC_ENUMOUTPUT),
            49 => Some(V4l2Ioctl::VIDIOC_G_AUDOUT),
            50 => Some(V4l2Ioctl::VIDIOC_S_AUDOUT),
            54 => Some(V4l2Ioctl::VIDIOC_G_MODULATOR),
            55 => Some(V4l2Ioctl::VIDIOC_S_MODULATOR),
            56 => Some(V4l2Ioctl::VIDIOC_G_FREQUENCY),
            57 => Some(V4l2Ioctl::VIDIOC_S_FREQUENCY),
            58 => Some(V4l2Ioctl::VIDIOC_CROPCAP),
            59 => Some(V4l2Ioctl::VIDIOC_G_CROP),
            60 => Some(V4l2Ioctl::VIDIOC_S_CROP),
            61 => Some(V4l2Ioctl::VIDIOC_G_JPEGCOMP),
            62 => Some(V4l2Ioctl::VIDIOC_S_JPEGCOMP),
            63 => Some(V4l2Ioctl::VIDIOC_QUERYSTD),
            64 => Some(V4l2Ioctl::VIDIOC_TRY_FMT),
            65 => Some(V4l2Ioctl::VIDIOC_ENUMAUDIO),
            66 => Some(V4l2Ioctl::VIDIOC_ENUMAUDOUT),
            67 => Some(V4l2Ioctl::VIDIOC_G_PRIORITY),
            68 => Some(V4l2Ioctl::VIDIOC_S_PRIORITY),
            69 => Some(V4l2Ioctl::VIDIOC_G_SLICED_VBI_CAP),
            70 => Some(V4l2Ioctl::VIDIOC_LOG_STATUS),
            71 => Some(V4l2Ioctl::VIDIOC_G_EXT_CTRLS),
            72 => Some(V4l2Ioctl::VIDIOC_S_EXT_CTRLS),
            73 => Some(V4l2Ioctl::VIDIOC_TRY_EXT_CTRLS),
            74 => Some(V4l2Ioctl::VIDIOC_ENUM_FRAMESIZES),
            75 => Some(V4l2Ioctl::VIDIOC_ENUM_FRAMEINTERVALS),
            76 => Some(V4l2Ioctl::VIDIOC_G_ENC_INDEX),
            77 => Some(V4l2Ioctl::VIDIOC_ENCODER_CMD),
            78 => Some(V4l2Ioctl::VIDIOC_TRY_ENCODER_CMD),
            79 => Some(V4l2Ioctl::VIDIOC_DBG_S_REGISTER),
            80 => Some(V4l2Ioctl::VIDIOC_DBG_G_REGISTER),
            82 => Some(V4l2Ioctl::VIDIOC_S_HW_FREQ_SEEK),
            87 => Some(V4l2Ioctl::VIDIOC_S_DV_TIMINGS),
            88 => Some(V4l2Ioctl::VIDIOC_G_DV_TIMINGS),
            89 => Some(V4l2Ioctl::VIDIOC_DQEVENT),
            90 => Some(V4l2Ioctl::VIDIOC_SUBSCRIBE_EVENT),
            91 => Some(V4l2Ioctl::VIDIOC_UNSUBSCRIBE_EVENT),
            92 => Some(V4l2Ioctl::VIDIOC_CREATE_BUFS),
            93 => Some(V4l2Ioctl::VIDIOC_PREPARE_BUF),
            94 => Some(V4l2Ioctl::VIDIOC_G_SELECTION),
            95 => Some(V4l2Ioctl::VIDIOC_S_SELECTION),
            96 => Some(V4l2Ioctl::VIDIOC_DECODER_CMD),
            97 => Some(V4l2Ioctl::VIDIOC_TRY_DECODER_CMD),
            98 => Some(V4l2Ioctl::VIDIOC_ENUM_DV_TIMINGS),
            99 => Some(V4l2Ioctl::VIDIOC_QUERY_DV_TIMINGS),
            100 => Some(V4l2Ioctl::VIDIOC_DV_TIMINGS_CAP),
            101 => Some(V4l2Ioctl::VIDIOC_ENUM_FREQ_BANDS),
            102 => Some(V4l2Ioctl::VIDIOC_DBG_G_CHIP_INFO),
            103 => Some(V4l2Ioctl::VIDIOC_QUERY_EXT_CTRL),
            _ => None,
        }
    }

    /// The ioctl a number stands for.
    pub fn n(v: u32) -> (r: Option<V4l2Ioctl>)
        ensures
            r == V4l2Ioctl::of(v),
    {
        match v {
            0 => Some(V4l2Ioctl::VIDIOC_QUERYCAP),
            2 => Some(V4l2Ioctl::VIDIOC_ENUM_FMT),
            4 => Some(V4l2Ioctl::VIDIOC_G_FMT),
            5 => Some(V4l2Ioctl::VIDIOC_S_FMT),
            8 => Some(V4l2Ioctl::VIDIOC_REQBUFS),
            9 => Some(V4l2Ioctl::VIDIOC_QUERYBUF),
            10 => Some(V4l2Ioctl::VIDIOC_G_FBUF),
            11 => Some(V4l2Ioctl::VIDIOC_S_FBUF),
            14 => Some(V4l2Ioctl::VIDIOC_OVERLAY),
            15 => Some(V4l2Ioctl::VIDIOC_QBUF),
            16 => Some(V4l2Ioctl::VIDIOC_EXPBUF),
            17 => Some(V4l2Ioctl::VIDIOC_DQBUF),
            18 => Some(V4l2Ioctl::VIDIOC_STREAMON),
            19 => Some(V4l2Ioctl::VIDIOC_STREAMOFF),
            21 => Some(V4l2Ioctl::VIDIOC_G_PARM),
            22 => Some(V4l2Ioctl::VIDIOC_S_PARM),
            23 => Some(V4l2Ioctl::VIDIOC_G_STD),
            24 => Some(V4l2Ioctl::VIDIOC_S_STD),
            25 => Some(V4l2Ioctl::VIDIOC_ENUMSTD),
            26 => Some(V4l2Ioctl::VIDIOC_ENUMINPUT),
            27 => Some(V4l2Ioctl::VIDIOC_G_CTRL),
            28 => Some(V4l2Ioctl::VIDIOC_S_CTRL),
            29 => Some(V4l2Ioctl::VIDIOC_G_TUNER),
            30 => Some(V4l2Ioctl::VIDIOC_S_TUNER),
            33 => Some(V4l2Ioctl::VIDIOC_G_AUDIO),
            34 => Some(V4l2Ioctl::VIDIOC_S_AUDIO),
            36 => Some(V4l2Ioctl::VIDIOC_QUERYCTRL),
            37 => Some(V4l2Ioctl::VIDIOC_QUERYMENU),
            38 => Some(V4l2Ioctl::VIDIOC_G_INPUT),
            39 => Some(V4l2Ioctl::VIDIOC_S_INPUT),
            40 => Some(V4l2Ioctl::VIDIOC_G_EDID),
            41 => Some(V4l2Ioctl::VIDIOC_S_EDID),
            46 => Some(V4l2Ioctl::VIDIOC_G_OUTPUT),
            47 => Some(V4l2Ioctl::VIDIOC_S_OUTPUT),
            48 => Some(V4l2Ioctl::VIDIOC_ENUMOUTPUT),
            49 => Some(V4l2Ioctl::VIDIOC_G_AUDOUT),
            50 => Some(V4l2Ioctl::VIDIOC_S_AUDOUT),
            54 => Some(V4l2Ioctl::VIDIOC_G_MODULATOR),
            55 => Some(V4l2Ioctl::VIDIOC_S_MODULATOR),
            56 => Some(V4l2Ioctl::VIDIOC_G_FREQUENCY),
            57 => Some(V4l2Ioctl::VIDIOC_S_FREQUENCY),
            58 => Some(V4l2Ioctl::VIDIOC_CROPCAP),
            59 => Some(V4l2Ioctl::VIDIOC_G_CROP),
            60 => Some(V4l2Ioctl::VIDIOC_S_CROP),
            61 => Some(V4l2Ioctl::VIDIOC_G_JPEGCOMP),
            62 => Some(V4l2Ioctl::VIDIOC_S_JPEGCOMP),
            63 => Some(V4l2Ioctl::VIDIOC_QUERYSTD),
            64 => Some(V4l2Ioctl::VIDIOC_TRY_FMT),
            65 => Some(V4l2Ioctl::VIDIOC_ENUMAUDIO),
            66 => Some(V4l2Ioctl::VIDIOC_ENUMAUDOUT),
            67 => Some(V4l2Ioctl::VIDIOC_G_PRIORITY),
            68 => Some(V4l2Ioctl::VIDIOC_S_PRIORITY),
            69 => Some(V4l2Ioctl::VIDIOC_G_SLICED_VBI_CAP),
            70 => Some(V4l2Ioctl::VIDIOC_LOG_STATUS),
            71 => Some(V4l2Ioctl::VIDIOC_G_EXT_CTRLS),
            72 => Some(V4l2Ioctl::VIDIOC_S_EXT_CTRLS),
            73 => Some(V4l2Ioctl::VIDIOC_TRY_EXT_CTRLS),
            74 => Some(V4l2Ioctl::VIDIOC_ENUM_FRAMESIZES),
            75 => Some(V4l2Ioctl::VIDIOC_ENUM_FRAMEINTERVALS),
            76 => Some(V4l2Ioctl::VIDIOC_G_ENC_INDEX),
            77 => Some(V4l2Ioctl::VIDIOC_ENCODER_CMD),
            78 => Some(V4l2Ioctl::VIDIOC_TRY_ENCODER_CMD),
            79 => Some(V4l2Ioctl::VIDIOC_DBG_S_REGISTER),
            80 => Some(V4l2Ioctl::VIDIOC_DBG_G_REGISTER),
            82 => Some(V4l2Ioctl::VIDIOC_S_HW_FREQ_SEEK),
            87 => Some(V4l2Ioctl::VIDIOC_S_DV_TIMINGS),
            88 => Some(V4l2Ioctl::VIDIOC_G_DV_TIMINGS),
            89 => Some(V4l2Ioctl::VIDIOC_DQEVENT),
            90 => Some(V4l2Ioctl::VIDIOC_SUBSCRIBE_EVENT),
            91 => Some(V4l2Ioctl::VIDIOC_UNSUBSCRIBE_EVENT),
            92 => Some(V4l2Ioctl::VIDIOC_CREATE_BUFS),
            93 => Some(V4l2Ioctl::VIDIOC_PREPARE_BUF),
            94 => Some(V4l2Ioctl::VIDIOC_G_SELECTION),
            95 => Some(V4l2Ioctl::VIDIOC_S_SELECTION),
            96 => Some(V4l2Ioctl::VIDIOC_DECODER_CMD),
            97 => Some(V4l2Ioctl::VIDIOC_TRY_DECODER_CMD),
            98 => Some(V4l2Ioctl::VIDIOC_ENUM_DV_TIMINGS),
            99 => Some(V4l2Ioctl::VIDIOC_QUERY_DV_TIMINGS),
            100 => Some(V4l2Ioctl::VIDIOC_DV_TIMINGS_CAP),
            101 => Some(V4l2Ioctl::VIDIOC_ENUM_FREQ_BANDS),
            102 => Some(V4l2Ioctl::VIDIOC_DBG_G_CHIP_INFO),
            103 => Some(V4l2Ioctl::VIDIOC_QUERY_EXT_CTRL),
            _ => None,
        }
    }
}

/// Every ioctl is the one its number stands for, so no two have one number.
pub proof fn ioctl_codes_are_distinct(ioctl: V4l2Ioctl)
    ensures
        V4l2Ioctl::of(ioctl.code()) == Some(ioctl),
{
}

/// The number of each ioctl in the kernel's interface; the numbers between and behind them are of
/// none.
pub proof fn ioctls_have_their_numbers(code: u32)
    ensures
        V4l2Ioctl::of(0) == Some(V4l2Ioctl::VIDIOC_QUERYCAP),
        V4l2Ioctl::of(2) == Some(V4l2Ioctl::VIDIOC_ENUM_FMT),
        V4l2Ioctl::of(4) == Some(V4l2Ioctl::VIDIOC_G_FMT),
        V4l2Ioctl::of(5) == Some(V4l2Ioctl::VIDIOC_S_FMT),
        V4l2Ioctl::of(8) == Some(V4l2Ioctl::VIDIOC_REQBUFS),
        V4l2Ioctl::of(9) == Some(V4l2Ioctl::VIDIOC_QUERYBUF),
        V4l2Ioctl::of(10) == Some(V4l2Ioctl::VIDIOC_G_FBUF),
        V4l2Ioctl::of(11) == Some(V4l2Ioctl::VIDIOC_S_FBUF),
        V4l2Ioctl::of(14) == Some(V4l2Ioctl::VIDIOC_OVERLAY),
        V4l2Ioctl::of(15) == Some(V4l2Ioctl::VIDIOC_QBUF),
        V4l2Ioctl::of(16) == Some(V4l2Ioctl::VIDIOC_EXPBUF),
        V4l2Ioctl::of(17) == Some(V4l2Ioctl::VIDIOC_DQBUF),
        V4l2Ioctl::of(18) == Some(V4l2Ioctl::VIDIOC_STREAMON),
        V4l2Ioctl::of(19) == Some(V4l2Ioctl::VIDIOC_STREAMOFF),
        V4l2Ioctl::of(21) == Some(V4l2Ioctl::VIDIOC_G_PARM),
        V4l2Ioctl::of(22) == Some(V4l2Ioctl::VIDIOC_S_PARM),
        V4l2Ioctl::of(23) == Some(V4l2Ioctl::VIDIOC_G_STD),
        V4l2Ioctl::of(24) == Some(V4l2Ioctl::VIDIOC_S_STD),
        V4l2Ioctl::of(25) == Some(V4l2Ioctl::VIDIOC_ENUMSTD),
        V4l2Ioctl::of(26) == Some(V4l2Ioctl::VIDIOC_ENUMINPUT),
        V4l2Ioctl::of(27) == Some(V4l2Ioctl::VIDIOC_G_CTRL),
        V4l2Ioctl::of(28) == Some(V4l2Ioctl::VIDIOC_S_CTRL),
        V4l2Ioctl::of(29) == Some(V4l2Ioctl::VIDIOC_G_TUNER),
        V4l2Ioctl::of(30) == Some(V4l2Ioctl::VIDIOC_S_TUNER),
        V4l2Ioctl::of(33) == Some(V4l2Ioctl::VIDIOC_G_AUDIO),
        V4l2Ioctl::of(34) == Some(V4l2Ioctl::VIDIOC_S_AUDIO),
        V4l2Ioctl::of(36) == Some(V4l2Ioctl::VIDIOC_QUERYCTRL),
        V4l2Ioctl::of(37) == Some(V4l2Ioctl::VIDIOC_QUERYMENU),
        V4l2Ioctl::of(38) == Some(V4l2Ioctl::VIDIOC_G_INPUT),
        V4l2Ioctl::of(39) == Some(V4l2Ioctl::VIDIOC_S_INPUT),
        V4l2Ioctl::of(40) == Some(V4l2Ioctl::VIDIOC_G_EDID),
        V4l2Ioctl::of(41) == Some(V4l2Ioctl::VIDIOC_S_EDID),
        V4l2Ioctl::of(46) == Some(V4l2Ioctl::VIDIOC_G_OUTPUT),
        V4l2Ioctl::of(47) == Some(V4l2Ioctl::VIDIOC_S_OUTPUT),
        V4l2Ioctl::of(48) == Some(V4l2Ioctl::VIDIOC_ENUMOUTPUT),
        V4l2Ioctl::of(49) == Some(V4l2Ioctl::VIDIOC_G_AUDOUT),
        V4l2Ioctl::of(50) == Some(V4l2Ioctl::VIDIOC_S_AUDOUT),
        V4l2Ioctl::of(54) == Some(V4l2Ioctl::VIDIOC_G_MODULATOR),
        V4l2Ioctl::of(55) == Some(V4l2Ioctl::VIDIOC_S_MODULATOR),
        V4l2Ioctl::of(56) == Some(V4l2Ioctl::VIDIOC_G_FREQUENCY),
        V4l2Ioctl::of(57) == Some(V4l2Ioctl::VIDIOC_S_FREQUENCY),
        V4l2Ioctl::of(58) == Some(V4l2Ioctl::VIDIOC_CROPCAP),
        V4l2Ioctl::of(59) == Some(V4l2Ioctl::VIDIOC_G_CROP),
        V4l2Ioctl::of(60) == Some(V4l2Ioctl::VIDIOC_S_CROP),
        V4l2Ioctl::of(61) == Some(V4l2Ioctl::VIDIOC_G_JPEGCOMP),
        V4l2Ioctl::of(62) == Some(V4l2Ioctl::VIDIOC_S_JPEGCOMP),
        V4l2Ioctl::of(63) == Some(V4l2Ioctl::VIDIOC_QUERYSTD),
        V4l2Ioctl::of(64) == Some(V4l2Ioctl::VIDIOC_TRY_FMT),
        V4l2Ioctl::of(65) == Some(V4l2Ioctl::VIDIOC_ENUMAUDIO),
        V4l2Ioctl::of(66) == Some(V4l2Ioctl::VIDIOC_ENUMAUDOUT),
        V4l2Ioctl::of(67) == Some(V4l2Ioctl::VIDIOC_G_PRIORITY),
        V4l2Ioctl::of(68) == Some(V4l2Ioctl::VIDIOC_S_PRIORITY),
        V4l2Ioctl::of(69) == Some(V4l2Ioctl::VIDIOC_G_SLICED_VBI_CAP),
        V4l2Ioctl::of(70) == Some(V4l2Ioctl::VIDIOC_LOG_STATUS),
        V4l2Ioctl::of(71) == Some(V4l2Ioctl::VIDIOC_G_EXT_CTRLS),
        V4l2Ioctl::of(72) == Some(V4l2Ioctl::VIDIOC_S_EXT_CTRLS),
        V4l2Ioctl::of(73) == Some(V4l2Ioctl::VIDIOC_TRY_EXT_CTRLS),
        V4l2Ioctl::of(74) == Some(V4l2Ioctl::VIDIOC_ENUM_FRAMESIZES),
        V4l2Ioctl::of(75) == Some(V4l2Ioctl::VIDIOC_ENUM_FRAMEINTERVALS),
        V4l2Ioctl::of(76) == Some(V4l2Ioctl::VIDIOC_G_ENC_INDEX),
        V4l2Ioctl::of(77) == Some(V4l2Ioctl::VIDIOC_ENCODER_CMD),
        V4l2Ioctl::of(78) == Some(V4l2Ioctl::VIDIOC_TRY_ENCODER_CMD),
        V4l2Ioctl::of(79) == Some(V4l2Ioctl::VIDIOC_DBG_S_REGISTER),
        V4l2Ioctl::of(80) == Some(V4l2Ioctl::VIDIOC_DBG_G_REGISTER),
        V4l2Ioctl::of(82) == Some(V4l2Ioctl::VIDIOC_S_HW_FREQ_SEEK),
        V4l2Ioctl::of(87) == Some(V4l2Ioctl::VIDIOC_S_DV_TIMINGS),
        V4l2Ioctl::of(88) == Some(V4l2Ioctl::VIDIOC_G_DV_TIMINGS),
        V4l2Ioctl::of(89) == Some(V4l2Ioctl::VIDIOC_DQEVENT),
        V4l2Ioctl::of(90) == Some(V4l2Ioctl::VIDIOC_SUBSCRIBE_EVENT),
        V4l2Ioctl::of(91) == Some(V4l2Ioctl::VIDIOC_UNSUBSCRIBE_EVENT),
        V4l2Ioctl::of(92) == Some(V4l2Ioctl::VIDIOC_CREATE_BUFS),
        V4l2Ioctl::of(93) == Some(V4l2Ioctl::VIDIOC_PREPARE_BUF),
        V4l2Ioctl::of(94) == Some(V4l2Ioctl::VIDIOC_G_SELECTION),
        V4l2Ioctl::of(95) == Some(V4l2Ioctl::VIDIOC_S_SELECTION),
        V4l2Ioctl::of(96) == Some(V4l2Ioctl::VIDIOC_DECODER_CMD),
        V4l2Ioctl::of(97) == Some(V4l2Ioctl::VIDIOC_TRY_DECODER_CMD),
        V4l2Ioctl::of(98) == Some(V4l2Ioctl::VIDIOC_ENUM_DV_TIMINGS),
        V4l2Ioctl::of(99) == Some(V4l2Ioctl::VIDIOC_QUERY_DV_TIMINGS),
        V4l2Ioctl::of(100) == Some(V4l2Ioctl::VIDIOC_DV_TIMINGS_CAP),
        V4l2Ioctl::of(101) == Some(V4l2Ioctl::VIDIOC_ENUM_FREQ_BANDS),
        V4l2Ioctl::of(102) == Some(V4l2Ioctl::VIDIOC_DBG_G_CHIP_INFO),
        V4l2Ioctl::of(103) == Some(V4l2Ioctl::VIDIOC_QUERY_EXT_CTRL),
        code > 103 ==> V4l2Ioctl::of(code) is None,
        code == 1 || code == 3 || code == 6 || code == 7 || code == 12 || code == 13 || code == 20
            || code == 31 || code == 32 || code == 35 ==> V4l2Ioctl::of(code) is None,
        42 <= code <= 45 || 51 <= code <= 53 || code == 81 || 83 <= code <= 86 ==> V4l2Ioctl::of(
            code,
        ) is None,
{
}

} // verus!
