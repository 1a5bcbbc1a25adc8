use cor::{convert_record, ConvertError, Decoder, Entries, F32Bits, F64Bits, FieldEncoder, List, Value};

#[derive(Clone, Debug, PartialEq)]
struct Types {
    bool_true: bool,
    bool_false: bool,

    u16_min: u16,
    u16_max: u16,

    i16_min: i16,
    i16_max: i16,

    u32_min: u32,
    u32_max: u32,

    i32_min: i32,
    i32_max: i32,

    u64_min: u64,
    u64_max: u64,

    i64_min: i64,
    i64_max: i64,

    f32_min: f32,
    f32_max: f32,

    f64_min: f64,
    f64_max: f64,

    string: String,
    bytes: Vec<u8>,

    user: User,

    arr_bool: Vec<bool>,
}

#[derive(Clone, Debug, PartialEq)]
struct User {
    id: Vec<u8>,
    name: String,
    email: Option<String>,
}

impl Decoder for User {
    fn decode(e: &Entries) -> Result<User, ConvertError> {
        Ok(User {
            id: e.get_and_convert(0)?,
            name: e.get_and_convert(1)?,
            email: e.get_and_convert(2)?,
        })
    }
}

impl Types {
    fn encode(&self, buf: &mut Vec<u8>) {
        FieldEncoder::encode(&self.bool_true, buf, 1);
        FieldEncoder::encode(&self.bool_false, buf, 2);
        FieldEncoder::encode(&self.u16_min, buf, 3);
        FieldEncoder::encode(&self.u16_max, buf, 4);
        FieldEncoder::encode(&self.i16_min, buf, 5);
        FieldEncoder::encode(&self.i16_max, buf, 6);
        FieldEncoder::encode(&self.u32_min, buf, 7);
        FieldEncoder::encode(&self.u32_max, buf, 8);
        FieldEncoder::encode(&self.i32_min, buf, 9);
        FieldEncoder::encode(&self.i32_max, buf, 10);
        FieldEncoder::encode(&self.u64_min, buf, 11);
        FieldEncoder::encode(&self.u64_max, buf, 12);
        FieldEncoder::encode(&self.i64_min, buf, 13);
        FieldEncoder::encode(&self.i64_max, buf, 14);
        FieldEncoder::encode(&F32Bits(self.f32_min.to_bits()), buf, 15);
        FieldEncoder::encode(&F32Bits(self.f32_max.to_bits()), buf, 16);
        FieldEncoder::encode(&F64Bits(self.f64_min.to_bits()), buf, 17);
        FieldEncoder::encode(&F64Bits(self.f64_max.to_bits()), buf, 18);
        FieldEncoder::encode(&self.string, buf, 19);
        FieldEncoder::encode(&self.bytes, buf, 20);
        // nested record: header with tag 9, its fields, its terminator
        cor::field::encode_field_ty(buf, 21, 9);
        FieldEncoder::encode(&self.user.id, buf, 0);
        FieldEncoder::encode(&self.user.name, buf, 1);
        FieldEncoder::encode(&self.user.email, buf, 2);
        buf.push(10);
        FieldEncoder::encode(&List::Bool(self.arr_bool.clone()), buf, 22);
        buf.push(10);
    }

    fn decode(e: &Entries) -> Types {
        let user = convert_record::<User>(e.get(21).expect("user field missing")).unwrap();
        let arr_bool = match e.get(22) {
            Some(Value::List(List::Bool(v))) => v.clone(),
            other => panic!("expected a list of booleans, got {:?}", other),
        };
        Types {
            bool_true: e.get_and_convert::<bool>(1).unwrap(),
            bool_false: e.get_and_convert::<bool>(2).unwrap(),
            u16_min: e.get_and_convert::<u16>(3).unwrap(),
            u16_max: e.get_and_convert::<u16>(4).unwrap(),
            i16_min: e.get_and_convert::<i16>(5).unwrap(),
            i16_max: e.get_and_convert::<i16>(6).unwrap(),
            u32_min: e.get_and_convert::<u32>(7).unwrap(),
            u32_max: e.get_and_convert::<u32>(8).unwrap(),
            i32_min: e.get_and_convert::<i32>(9).unwrap(),
            i32_max: e.get_and_convert::<i32>(10).unwrap(),
            u64_min: e.get_and_convert::<u64>(11).unwrap(),
            u64_max: e.get_and_convert::<u64>(12).unwrap(),
            i64_min: e.get_and_convert::<i64>(13).unwrap(),
            i64_max: e.get_and_convert::<i64>(14).unwrap(),
            f32_min: f32::from_bits(e.get_and_convert::<F32Bits>(15).unwrap().0),
            f32_max: f32::from_bits(e.get_and_convert::<F32Bits>(16).unwrap().0),
            f64_min: f64::from_bits(e.get_and_convert::<F64Bits>(17).unwrap().0),
            f64_max: f64::from_bits(e.get_and_convert::<F64Bits>(18).unwrap().0),
            string: e.get_and_convert::<String>(19).unwrap(),
            bytes: e.get_and_convert::<Vec<u8>>(20).unwrap(),
            user,
            arr_bool,
        }
    }
}

#[test]
fn test_all_types() {
    let all_types = Types {
        bool_true: true,
        bool_false: false,

        u16_min: 0,
        u16_max: u16::MAX,

        i16_min: i16::MIN,
        i16_max: i16::MAX,

        u32_min: 0,
        u32_max: u32::MAX,

        i32_min: i32::MIN,
        i32_max: i32::MAX,

        u64_min: 0,
        u64_max: u64::MAX,

        i64_min: i64::MIN,
        i64_max: i64::MAX,

        f32_min: f32::MIN,
        f32_max: f32::MAX,

        f64_min: f64::MIN,
        f64_max: f64::MAX,

        string: "Hello World".to_string(),
        bytes: "Hello, World".as_bytes().to_vec(),
        user: User {
            id: vec![1, 2, 3, 4, 5],
            name: "Alex".into(),
            email: None,
        },

        arr_bool: vec![true, false],
    };

    let mut buf = Vec::new();
    all_types.encode(&mut buf);

    let mut pos = 0;
    let entries = cor::Entries::parse(&buf, &mut pos).unwrap();
    let new_all_types = Types::decode(&entries);

    println!("{:#?}", entries);

    assert_eq!(all_types, new_all_types);
    assert_eq!(pos, buf.len());
}
