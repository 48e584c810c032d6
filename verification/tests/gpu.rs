use pixelflux::gpu::{
    auto_select_render_node, card_matches_token, driver_selects_nvenc, get_gpu_driver, is_lowered_software_renderer,
    is_software_renderer, parse_auto_gpu, parse_lowered_auto_gpu, read_card_identity, Card, CardFiles,
    CardIdentity,
};

fn pci(driver: &str, vendor: u32) -> CardIdentity {
    CardIdentity { driver: driver.into(), pci_vendor: Some(vendor), compatibles: vec![] }
}

fn dt(driver: &str, compatibles: &[&str]) -> CardIdentity {
    CardIdentity {
        driver: driver.into(),
        pci_vendor: None,
        compatibles: compatibles.iter().map(|c| c.to_string()).collect(),
    }
}

#[test]
fn driver_names_match_without_any_table() {
    assert!(card_matches_token("amdgpu", &pci("amdgpu", 0x1002)));
    assert!(card_matches_token("panfrost", &dt("panfrost", &["rockchip,rk3399-mali"])));
    assert!(card_matches_token("nouveau", &pci("nouveau", 0x10de)));
    assert!(!card_matches_token("i915", &pci("amdgpu", 0x1002)));
}

#[test]
fn vendor_names_and_raw_ids_match_pci_identity() {
    let nv = pci("nouveau", 0x10de);
    assert!(card_matches_token("nvidia", &nv));
    assert!(card_matches_token("0x10de", &nv));
    assert!(card_matches_token("10de", &nv));
    assert!(!card_matches_token("amd", &nv));
    assert!(card_matches_token("ati", &pci("radeon", 0x1002)));
}

#[test]
fn devicetree_prefixes_match_literally_and_via_aliases() {
    let mali = dt("panfrost", &["rockchip,rk3399-mali", "arm,mali-t860"]);
    assert!(card_matches_token("rockchip", &mali));
    assert!(card_matches_token("arm", &mali));
    assert!(card_matches_token("mali", &mali));
    let adreno = dt("msm", &["qcom,adreno-630", "qcom,adreno"]);
    assert!(card_matches_token("qcom", &adreno));
    assert!(card_matches_token("qualcomm", &adreno));
    assert!(card_matches_token("adreno", &adreno));
    assert!(!card_matches_token("brcm", &adreno));
    assert!(card_matches_token("videocore", &dt("v3d", &["brcm,bcm2711-v3d"])));
}

#[test]
fn missing_identity_fields_never_false_match() {
    let bare = CardIdentity { driver: String::new(), pci_vendor: None, compatibles: vec![] };
    for t in ["nvidia", "amdgpu", "0x10de", "qcom"] {
        assert!(!card_matches_token(t, &bare));
    }
}

/// Requests are read without regard to case.
#[test]
fn auto_gpu_requests_are_lowered() {
    for off in ["", "false", "OFF", "No", "0"] {
        assert_eq!(parse_auto_gpu(off), None);
    }
    for on in ["TRUE", "1", "On", "yes"] {
        assert_eq!(parse_auto_gpu(on), Some(None));
    }
    assert_eq!(parse_auto_gpu("NVIDIA"), Some(Some("nvidia".to_string())));
    assert_eq!(parse_lowered_auto_gpu("amdgpu".to_string()), Some(Some("amdgpu".to_string())));
}

#[test]
fn software_renderers_are_known_by_name() {
    assert!(is_software_renderer("llvmpipe (LLVM 15.0.7, 256 bits)"));
    assert!(is_software_renderer("SOFTPIPE"));
    assert!(is_lowered_software_renderer("softpipe"));
    assert!(!is_software_renderer("NVIDIA GeForce RTX 3080"));
}

#[test]
fn named_drivers_choose_the_encoder() {
    assert!(driver_selects_nvenc(""));
    assert!(driver_selects_nvenc("/sys/bus/pci/drivers/nvidia"));
    assert!(!driver_selects_nvenc("i915"));
}

#[test]
fn identities_come_from_the_uevent_first() {
    let id = read_card_identity(&CardFiles {
        uevent: Some("DRIVER=AMDGPU\nPCI_ID=1002:73BF\nOF_COMPATIBLE_0=Arm,Mali\nOF_COMPATIBLE_N=1\n".to_string()),
        vendor: Some("0x8086\n".to_string()),
        modalias: Some("of:NgpuT<NULL>Cqcom,adreno".to_string()),
        driver: Some("i915".to_string()),
    });
    assert_eq!(id.driver, "amdgpu");
    assert_eq!(id.pci_vendor, Some(0x1002));
    assert_eq!(id.compatibles, vec!["arm,mali".to_string()]);
}

#[test]
fn identities_fall_back_to_the_other_files() {
    let id = read_card_identity(&CardFiles {
        uevent: None,
        vendor: Some("0x8086\n".to_string()),
        modalias: Some("of:NgpuT(null)Cqcom,adreno-630Cqcom,adreno\n".to_string()),
        driver: Some("MSM".to_string()),
    });
    assert_eq!(id.driver, "msm");
    assert_eq!(id.pci_vendor, Some(0x8086));
    assert_eq!(id.compatibles, vec!["qcom,adreno-630".to_string(), "qcom,adreno".to_string()]);
}

fn card(name: &str, identity: CardIdentity, nodes: &[(&str, bool)]) -> Card {
    Card {
        name: name.to_string(),
        identity,
        nodes: nodes.iter().map(|(n, b)| (n.to_string(), *b)).collect(),
    }
}

/// Cards are walked in numeric order; one without a node is passed over.
#[test]
fn the_first_usable_card_is_picked() {
    let cards = vec![
        card("card10", pci("amdgpu", 0x1002), &[("renderD130", true)]),
        card("card2", pci("i915", 0x8086), &[("card2", true), ("renderD129", true)]),
        card("card0", pci("ast", 0x1a03), &[("card0", true)]),
        card("card2-HDMI-A-1", pci("i915", 0x8086), &[("renderD128", true)]),
    ];
    assert_eq!(auto_select_render_node(None, &cards, None), Some("/dev/dri/renderD129".to_string()));
    assert_eq!(auto_select_render_node(Some("amd"), &cards, None), Some("/dev/dri/renderD130".to_string()));
    assert_eq!(auto_select_render_node(Some("nvidia"), &cards, Some(vec!["renderD128".to_string()])), None);
}

#[test]
fn without_cards_the_first_node_by_name_is_picked() {
    let dri = vec!["renderD129".to_string(), "card0".to_string(), "renderD128".to_string()];
    assert_eq!(auto_select_render_node(None, &[], Some(dri)), Some("/dev/dri/renderD128".to_string()));
    assert_eq!(auto_select_render_node(None, &[], Some(vec!["card0".to_string()])), None);
    assert_eq!(auto_select_render_node(None, &[], None), None);
    let gone = vec![card("card0", pci("amdgpu", 0x1002), &[("renderD128", false)])];
    assert_eq!(auto_select_render_node(None, &gone, None), None);
}

#[test]
fn drivers_are_lowered() {
    assert_eq!(get_gpu_driver(Some("../../Bus/PCI/drivers/NVIDIA")), "../../bus/pci/drivers/nvidia");
    assert!(driver_selects_nvenc(&get_gpu_driver(Some("NVIDIA"))));
    assert_eq!(get_gpu_driver(None), "");
}
