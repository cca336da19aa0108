use animedl::hls::{
    check_hls_output_size, ffmpeg_args, ffmpeg_seconds, is_ffmpeg_error_line, is_hls_url, join_url,
    parse_master_m3u8, pick_hls_headers, split_csv_attrs, variant_label, variants_to_try, HlsVariant,
};

#[test]
fn ffmpeg_is_given_the_host_headers() {
    let args = ffmpeg_args("https://cdn.sibnet.ru/a.m3u8", "/out/ep.mp4");
    assert_eq!(args.len(), 14);
    assert_eq!(args[0], "-y");
    assert_eq!(args[5], "-headers");
    assert_eq!(args[6], "Referer: https://video.sibnet.ru/\r\nOrigin: https://video.sibnet.ru\r\n");
    assert_eq!(args[8], "https://cdn.sibnet.ru/a.m3u8");
    assert_eq!(args[13], "/out/ep.mp4");
}

#[test]
fn ffmpeg_time_is_read_in_seconds() {
    assert_eq!(ffmpeg_seconds("frame=  10 fps=0.0 q=-1.0 size=1kB time=01:02:03.45 bitrate=1kbits/s"), Some(3723));
    assert_eq!(ffmpeg_seconds("time=00:00:07.00 speed=2.1x"), Some(7));
    assert_eq!(ffmpeg_seconds("Input #0, hls"), None);
}

#[test]
fn ffmpeg_error_lines_are_noticed() {
    assert!(is_ffmpeg_error_line("Invalid data found when processing input"));
    assert!(is_ffmpeg_error_line("[hls] ERROR opening segment"));
    assert!(!is_ffmpeg_error_line("frame=1 time=00:00:01.00"));
}

#[test]
fn tiny_hls_outputs_are_refused() {
    assert!(check_hls_output_size(100_000).is_ok());
    match check_hls_output_size(99_999) {
        Err(animedl::providers::ScraperError::NetworkError(m)) => {
            assert_eq!(m, "HLS: fichier de sortie trop petit (99999 octets), flux probablement invalide")
        },
        _ => panic!("small output accepted"),
    }
}

#[test]
fn variants_are_named_by_resolution_and_rate() {
    let v = HlsVariant { url: "a".to_string(), bandwidth: 2_500_000, resolution: Some("1280x720".to_string()) };
    assert_eq!(variant_label(&v), "1280x720 @ 2500kbps");
    let w = HlsVariant { url: "a".to_string(), bandwidth: 999, resolution: None };
    assert_eq!(variant_label(&w), "? @ 0kbps");
}

#[test]
fn playlists_are_recognised_and_resolved() {
    assert!(is_hls_url("https://x/master.m3u8?token=1"));
    assert!(!is_hls_url("https://x/video.mp4"));
    assert_eq!(join_url("https://h/a/b/master.m3u8", "720.m3u8"), "https://h/a/b/720.m3u8");
    assert_eq!(join_url("https://h/a/master.m3u8", "https://o/x.m3u8"), "https://o/x.m3u8");
    assert_eq!(split_csv_attrs("BANDWIDTH=1,CODECS=\"a,b\",RESOLUTION=2x3"), vec![
        "BANDWIDTH=1".to_string(),
        "CODECS=\"a,b\"".to_string(),
        "RESOLUTION=2x3".to_string(),
    ]);
}

#[test]
fn master_playlists_list_variants_by_decreasing_rate() {
    let content = "#EXTM3U\n#EXT-X-STREAM-INF:BANDWIDTH=800000,RESOLUTION=640x360\nlow.m3u8\n#EXT-X-STREAM-INF:BANDWIDTH=2500000,RESOLUTION=1280x720\nhigh.m3u8\n";
    let vs = parse_master_m3u8(content, "https://h/p/master.m3u8");
    assert_eq!(vs.len(), 2);
    assert_eq!(vs[0].url, "https://h/p/high.m3u8");
    assert_eq!(vs[0].bandwidth, 2_500_000);
    assert_eq!(vs[0].resolution, Some("1280x720".to_string()));
    assert_eq!(vs[1].url, "https://h/p/low.m3u8");
    let fallback = variants_to_try(Vec::new(), "https://h/p/index.m3u8");
    assert_eq!(fallback.len(), 1);
    assert_eq!(fallback[0].bandwidth, 0);
    assert_eq!(pick_hls_headers("https://x.UNIQUESTREAM.net/a"), ("https://anime.uniquestream.net/", "https://anime.uniquestream.net"));
    assert_eq!(pick_hls_headers("https://other/a"), ("https://franime.fr/", "https://franime.fr"));
}
