use aes_gcm::aead::generic_array::typenum::U16;
use aes_gcm::aead::generic_array::GenericArray;
use aes_gcm::aead::{Aead, KeyInit};
use aes_gcm::aes::Aes128;
use aes_gcm::AesGcm;
use rand::SeedableRng;
use rsa::pkcs8::{EncodePublicKey, LineEnding};
use rsa::{Oaep, RsaPrivateKey};
use sha2::Sha256;
use std::path::PathBuf;
use transjlc::colorful::encrypt::{encrypt_payload, KeyMaterial};
use transjlc::colorful::{
    describe_image, image_data_uri, load_image, ArtifactDocuments, ColorfulArtifact, ColorfulOptions,
    ColorfulSilkscreenGenerator,
};
use transjlc::error::TransJlcError;

const RSA_PUB_KEY: &str = "-----BEGIN PUBLIC KEY-----
MIIBIjANBgkqhkiG9w0BAQEFAAOCAQ8AMIIBCgKCAQEAzPtuUqJecaR/wWtctGT8
QuVslmDH3Ut3s8c1Ls4A+M9rwpeLjgDUqfcrSrTHBrl5k/dOeJEWMeNF7STWS5jo
WZE0H60cvf2bhormC9S6CRwq4Lw0ua0YQMo66R/qCtLVa5w6WkaPCz4b0xaHWtej
JH49C0T67rU2DkepXuMPpwNCflMU+WgEQioZEldUTD6gYpu2U5GrW4AE0AQiIo+j
e7tgN8PlBMbMaEfu0LokZyth1ugfuLAgyogWnedAegQmPZzAUe36Sni94AsDlhxm
mjFl+WQZzD3MclbEY6KQB5XL8zCR/J6pCUUwfHantLxY/gQi0XJG5hWWtDyH/fR2
lwIDAQAB
-----END PUBLIC KEY-----";

const TOP_KEY: [u8; 16] = [
    96, 251, 63, 138, 10, 53, 0, 203, 150, 177, 136, 29, 83, 139, 70, 130,
];
const TOP_IV: [u8; 16] = [
    102, 221, 239, 247, 95, 55, 142, 28, 51, 165, 68, 208, 7, 250, 86, 5,
];

const BOTTOM_KEY: [u8; 16] = [
    90, 50, 20, 193, 6, 67, 43, 228, 131, 126, 89, 124, 77, 32, 217, 139,
];
const BOTTOM_IV: [u8; 16] = [
    122, 69, 187, 114, 43, 165, 6, 126, 105, 24, 156, 226, 43, 12, 151, 131,
];

fn encrypt_with(key: &[u8], iv: &[u8], plaintext: &[u8]) -> Vec<u8> {
    let cipher = AesGcm::<Aes128, U16>::new_from_slice(key).expect("cipher");
    let nonce = GenericArray::<u8, U16>::from_slice(iv);
    cipher.encrypt(nonce, plaintext).expect("encrypt")
}

#[test]
fn top_ciphertext_tail_matches_sample() {
    let plaintext = b"<?xml version=\"1.0\" encoding=\"UTF-8\" standalone=\"no\"?>\n<svg id=\"top\"/>\n".to_vec();
    let material = KeyMaterial::wrap(RSA_PUB_KEY, TOP_KEY, TOP_IV).expect("key material");
    let expected_full = encrypt_payload(&plaintext, &material).expect("sealed");
    assert!(
        expected_full.len() > 512,
        "expected encrypted file to include RSA header"
    );

    let ciphertext = encrypt_with(&TOP_KEY, &TOP_IV, &plaintext);
    let tail = &expected_full[512..];
    assert_eq!(tail, ciphertext.as_slice());
}

#[test]
fn bottom_ciphertext_tail_matches_sample() {
    let plaintext = b"<?xml version=\"1.0\" encoding=\"UTF-8\" standalone=\"no\"?>\n<svg id=\"bottom\"/>\n".to_vec();
    let material = KeyMaterial::wrap(RSA_PUB_KEY, BOTTOM_KEY, BOTTOM_IV).expect("key material");
    let expected_full = encrypt_payload(&plaintext, &material).expect("sealed");
    assert!(
        expected_full.len() > 512,
        "expected encrypted file to include RSA header"
    );

    let ciphertext = encrypt_with(&BOTTOM_KEY, &BOTTOM_IV, &plaintext);
    let tail = &expected_full[512..];
    assert_eq!(tail, ciphertext.as_slice());
}

#[test]
fn sealed_file_opens_with_the_private_key() {
    let mut rng = rand::rngs::StdRng::seed_from_u64(7);
    let private = RsaPrivateKey::new(&mut rng, 1024).expect("key pair");
    let pem = private.to_public_key().to_public_key_pem(LineEnding::LF).expect("pem");

    let material = KeyMaterial::generate(&pem).expect("key material");
    let plaintext = "<svg>\u{4e0b}\u{5355}</svg>\n".as_bytes().to_vec();
    let file = encrypt_payload(&plaintext, &material).expect("sealed");
    assert_eq!(file.len(), 128 + 128 + plaintext.len() + 16);

    let key = private.decrypt(Oaep::new::<Sha256>(), &file[..128]).expect("key");
    let iv = private.decrypt(Oaep::new::<Sha256>(), &file[128..256]).expect("iv");
    assert_eq!(key.len(), 16);
    assert_eq!(iv.len(), 16);
    let cipher = AesGcm::<Aes128, U16>::new_from_slice(&key).expect("cipher");
    let opened = cipher
        .decrypt(GenericArray::<u8, U16>::from_slice(&iv), &file[256..])
        .expect("plaintext");
    assert_eq!(opened, plaintext);

    let again = KeyMaterial::generate(&pem).expect("key material");
    let other = encrypt_payload(&plaintext, &again).expect("sealed");
    assert_ne!(other, file);
}

#[test]
fn key_material_needs_a_usable_public_key() {
    assert_eq!(
        KeyMaterial::generate("not a key").err(),
        Some(TransJlcError::EncryptionFailed { reason: "Encrypt AES key".to_string() })
    );
    assert!(KeyMaterial::wrap("", TOP_KEY, TOP_IV).is_err());
    let mut rng = rand::rngs::StdRng::seed_from_u64(11);
    let small = RsaPrivateKey::new(&mut rng, 512).expect("key pair");
    let pem = small.to_public_key().to_public_key_pem(LineEnding::LF).expect("pem");
    assert_eq!(
        KeyMaterial::wrap(&pem, TOP_KEY, TOP_IV).err(),
        Some(TransJlcError::EncryptionFailed { reason: "Encrypt AES key".to_string() })
    );
}

#[test]
fn data_uri_names_the_type_and_holds_the_bytes() {
    assert_eq!(
        image_data_uri(Some("PNG"), b"hello").unwrap(),
        "data:image/png;base64,aGVsbG8="
    );
    assert_eq!(
        image_data_uri(Some("JpEg"), &[0, 255, 16]).unwrap(),
        "data:image/jpeg;base64,AP8Q"
    );
    assert_eq!(image_data_uri(None, b"").unwrap(), "data:image/png;base64,");
    assert_eq!(
        image_data_uri(Some("\u{c4}b"), b"a").unwrap(),
        "data:image/\u{c4}b;base64,YQ=="
    );
}

#[test]
fn image_is_described_by_its_size_and_its_bytes() {
    let png: Vec<u8> = vec![
        137, 80, 78, 71, 13, 10, 26, 10, 0, 0, 0, 13, 73, 72, 68, 82, 0, 0, 0, 3, 0, 0, 0, 2, 8, 2,
        0, 0, 0, 18, 22, 241, 77, 0, 0, 0, 16, 73, 68, 65, 84, 120, 156, 99, 248, 207, 192, 0, 65,
        12, 112, 22, 0, 65, 210, 5, 251, 135, 240, 185, 72, 0, 0, 0, 0, 73, 69, 78, 68, 174, 66,
        96, 130,
    ];
    let image = load_image(Some("PNG"), &png).expect("image");
    assert_eq!(image.width, 3);
    assert_eq!(image.height, 2);
    assert_eq!(
        image.data_uri,
        "data:image/png;base64,iVBORw0KGgoAAAANSUhEUgAAAAMAAAACCAIAAAASFvFNAAAAEElEQVR4nGP4z8AAQQxwFgBB0gX7h/C5SAAAAABJRU5ErkJggg=="
    );
    let named_otherwise = load_image(Some("jpg"), &png).expect("image");
    assert_eq!(named_otherwise.width, 3);
    assert!(named_otherwise.data_uri.starts_with("data:image/jpg;base64,iVBOR"));
    assert_eq!(
        load_image(Some("png"), b"no image").err(),
        Some(TransJlcError::InvalidImage { reason: "Read image dimensions".to_string() })
    );
    assert!(load_image(None, &[]).is_err());

    let described = describe_image(Some("GIF"), b"hello", (640, 480)).expect("image");
    assert_eq!(described.width, 640);
    assert_eq!(described.height, 480);
    assert_eq!(described.data_uri, "data:image/gif;base64,aGVsbG8=");
}

#[test]
fn artifacts_follow_the_images() {
    let options = |top: bool, bottom: bool| ColorfulOptions {
        top_image: if top { Some(PathBuf::from("top.png")) } else { None },
        bottom_image: if bottom { Some(PathBuf::from("bottom.png")) } else { None },
        top_solder_mask: None,
        bottom_solder_mask: None,
    };
    assert!(ColorfulSilkscreenGenerator::new(options(false, false)).planned_artifacts().is_empty());
    assert_eq!(
        ColorfulSilkscreenGenerator::new(options(true, false)).planned_artifacts(),
        vec![
            ColorfulArtifact::TopSilkscreen,
            ColorfulArtifact::BoardOutline,
            ColorfulArtifact::BoardOutlineMark
        ]
    );
    assert_eq!(
        ColorfulSilkscreenGenerator::new(options(false, true)).planned_artifacts(),
        vec![
            ColorfulArtifact::BottomSilkscreen,
            ColorfulArtifact::BoardOutline,
            ColorfulArtifact::BoardOutlineMark
        ]
    );
    assert_eq!(
        ColorfulSilkscreenGenerator::new(options(true, true)).planned_artifacts(),
        vec![
            ColorfulArtifact::TopSilkscreen,
            ColorfulArtifact::BottomSilkscreen,
            ColorfulArtifact::BoardOutline,
            ColorfulArtifact::BoardOutlineMark
        ]
    );
    assert_eq!(ColorfulArtifact::TopSilkscreen.file_name(), "Fabrication_ColorfulTopSilkscreen.FCTS");
    assert_eq!(ColorfulArtifact::BottomSilkscreen.file_name(), "Fabrication_ColorfulBottomSilkscreen.FCBS");
    assert_eq!(ColorfulArtifact::BoardOutline.file_name(), "Fabrication_ColorfulBoardOutlineLayer.FCBO");
    assert_eq!(ColorfulArtifact::BoardOutlineMark.file_name(), "Fabrication_ColorfulBoardOutlineMark.FCBM");
    assert!(ColorfulArtifact::BoardOutline.sealed());
    assert!(!ColorfulArtifact::BoardOutlineMark.sealed());
}

#[test]
fn files_are_sealed_but_for_the_marks() {
    let generator = ColorfulSilkscreenGenerator::new(ColorfulOptions {
        top_image: Some(PathBuf::from("top.png")),
        bottom_image: None,
        top_solder_mask: None,
        bottom_solder_mask: None,
    });
    let material = KeyMaterial::wrap(RSA_PUB_KEY, TOP_KEY, TOP_IV).expect("key material");
    let documents = ArtifactDocuments {
        top_svg: Some("<svg id=\"top\"/>".to_string()),
        bottom_svg: None,
        outline_svg: "<svg id=\"outline\"/>".to_string(),
        mark_gerber: "G04 marks*\nM02*\n".to_string(),
    };
    let files = generator.generate(&documents, &material).expect("files");
    assert_eq!(files.len(), 3);
    assert_eq!(files[0].artifact, ColorfulArtifact::TopSilkscreen);
    assert_eq!(files[0].name, "Fabrication_ColorfulTopSilkscreen.FCTS");
    assert_eq!(&files[0].bytes[512..], encrypt_with(&TOP_KEY, &TOP_IV, b"<svg id=\"top\"/>").as_slice());
    assert_eq!(files[1].name, "Fabrication_ColorfulBoardOutlineLayer.FCBO");
    assert_eq!(&files[1].bytes[512..], encrypt_with(&TOP_KEY, &TOP_IV, b"<svg id=\"outline\"/>").as_slice());
    assert_eq!(files[0].bytes[..512], files[1].bytes[..512]);
    assert_eq!(files[2].name, "Fabrication_ColorfulBoardOutlineMark.FCBM");
    assert_eq!(files[2].bytes, b"G04 marks*\nM02*\n".to_vec());

    let missing = ArtifactDocuments { top_svg: None, ..documents };
    assert_eq!(
        generator.generate(&missing, &material).err(),
        Some(TransJlcError::MissingAsset {
            name: "Fabrication_ColorfulTopSilkscreen.FCTS".to_string()
        })
    );
    let nothing = ColorfulSilkscreenGenerator::new(ColorfulOptions {
        top_image: None,
        bottom_image: None,
        top_solder_mask: Some(PathBuf::from("mask")),
        bottom_solder_mask: None,
    });
    assert!(nothing.generate(&missing, &material).expect("files").is_empty());
}
